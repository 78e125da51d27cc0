//! Geometry engine: placement of points on a circle at third-of-a-turn
//! angles, linear interpolation of points, and intersection of two infinite
//! lines, all in micro-unit fixed-point arithmetic.

use vstd::prelude::*;

verus! {

use crate::num::{rdiv, rdiv_s, lerp, lerp_i64, lemma_rdiv_error, lemma_rdiv_mag};

/// A point, both coordinates in micro-units.
#[derive(Clone, Copy, PartialEq, Eq, Structural, Debug)]
pub struct Point {
    pub x: i64,
    pub y: i64,
}

/// Largest coordinate magnitude, in micro-units, accepted by the geometric
/// operations (400 000 units).
pub const MAX_COORD: i64 = 400_000_000_000;

/// Whether both coordinates are within the geometric working range.
pub open spec fn in_range(p: Point) -> bool {
    -400_000_000_000 <= p.x <= 400_000_000_000 && -400_000_000_000 <= p.y <= 400_000_000_000
}

/// `r * sqrt(3) / 2`, rounded to the nearest micro-unit.
pub open spec fn sqrt3_half(r: int) -> int {
    rdiv(r * 1_732_050_807_569, 2_000_000_000_000)
}

/// `r * sqrt(2) / 2`, rounded to the nearest micro-unit.
pub open spec fn sqrt2_half(r: int) -> int {
    rdiv(r * 1_414_213_562_373, 2_000_000_000_000)
}

/// The point at angle `index / 3` of a full turn on the circle of radius
/// `radius` around `center`, measuring the angle clockwise from straight up:
/// `center + radius * (sin theta, -cos theta)`.
pub open spec fn place_spec(cx: int, cy: int, radius: int, index: int) -> (int, int) {
    if index == 0 {
        (cx, cy - radius)
    } else if index == 1 {
        (cx + sqrt3_half(radius), cy + rdiv(radius, 2))
    } else {
        (cx - sqrt3_half(radius), cy + rdiv(radius, 2))
    }
}

/// A rounded quotient of `r` by two scale units never exceeds `r` itself.
proof fn lemma_scale_bound(r: int, c: int)
    requires
        0 <= r,
        0 <= c <= 1_999_999_999_999,
    ensures
        0 <= rdiv(r * c, 2_000_000_000_000) <= r,
{
    let n = r * c;
    assert(0 <= r * c <= r * 2_000_000_000_000) by (nonlinear_arith)
        requires 0 <= r && 0 <= c <= 1_999_999_999_999;
    lemma_rdiv_mag(n, 2_000_000_000_000);
    lemma_rdiv_error(n, 2_000_000_000_000);
    let q = rdiv(n, 2_000_000_000_000);
    if q > r {
        assert(2 * (q * 2_000_000_000_000) >= 2 * ((r + 1) * 2_000_000_000_000)) by (nonlinear_arith)
            requires q >= r + 1;
        assert((r + 1) * 2_000_000_000_000 == r * 2_000_000_000_000 + 2_000_000_000_000);
        assert(false);
    }
}

/// Executable `r * sqrt(3) / 2`.
pub fn sqrt3_half_i64(r: i64) -> (v: i64)
    requires
        0 <= r <= MAX_COORD,
    ensures
        v as int == sqrt3_half(r as int),
        0 <= v <= r,
{
    proof {
        lemma_scale_bound(r as int, 1_732_050_807_569);
    }
    let n: u128 = (r as u128) * 1_732_050_807_569;
    let d: u128 = 2_000_000_000_000;
    let q: u128 = (2 * n + d) / (2 * d);
    q as i64
}

/// Executable `r * sqrt(2) / 2`.
pub fn sqrt2_half_i64(r: i64) -> (v: i64)
    requires
        0 <= r <= MAX_COORD,
    ensures
        v as int == sqrt2_half(r as int),
        0 <= v <= r,
{
    proof {
        lemma_scale_bound(r as int, 1_414_213_562_373);
    }
    let n: u128 = (r as u128) * 1_414_213_562_373;
    let d: u128 = 2_000_000_000_000;
    let q: u128 = (2 * n + d) / (2 * d);
    q as i64
}

/// Places one of three equally spaced points on the circle of radius
/// `radius` around `center`, index 0 pointing straight up.
pub fn place_on_circle(center: Point, radius: i64, index: u8) -> (p: Point)
    requires
        index < 3,
        0 <= radius <= 100_000_000_000,
        -300_000_000_000 <= center.x <= 300_000_000_000,
        -300_000_000_000 <= center.y <= 300_000_000_000,
    ensures
        (p.x as int, p.y as int) == place_spec(center.x as int, center.y as int, radius as int, index as int),
        in_range(p),
{
    if index == 0 {
        Point { x: center.x, y: center.y - radius }
    } else {
        let w = sqrt3_half_i64(radius);
        let h = crate::num::rdiv_i64(radius, 2);
        if index == 1 {
            Point { x: center.x + w, y: center.y + h }
        } else {
            Point { x: center.x - w, y: center.y + h }
        }
    }
}

/// Linear interpolation between two points, parameter in thousandths.
pub open spec fn lerp_point_spec(ax: int, ay: int, bx: int, by: int, t: int) -> (int, int) {
    (lerp(ax, bx, t), lerp(ay, by, t))
}

/// Executable linear interpolation between two points.
pub fn lerp_point(a: Point, b: Point, t: i64) -> (p: Point)
    requires
        0 <= t <= 1000,
        in_range(a),
        in_range(b),
    ensures
        (p.x as int, p.y as int) == lerp_point_spec(a.x as int, a.y as int, b.x as int, b.y as int, t as int),
        in_range(p),
{
    Point { x: lerp_i64(a.x, b.x, t), y: lerp_i64(a.y, b.y, t) }
}

/// Determinant threshold below which two lines count as parallel
/// (`10^-6` square units, i.e. `10^6` square micro-units).
pub const EPS_DET: i128 = 1_000_000;

/// The determinant of the two direction vectors of the lines through
/// `a1, a2` and `b1, b2`.
pub open spec fn det_spec(a1x: int, a1y: int, a2x: int, a2y: int, b1x: int, b1y: int, b2x: int, b2y: int) -> int {
    (a1x - a2x) * (b1y - b2y) - (a1y - a2y) * (b1x - b2x)
}

/// The intersection of the infinite line through `a1, a2` with the infinite
/// line through `b1, b2`, or nothing when the determinant is below the
/// parallelism threshold.
pub open spec fn intersect_spec(a1x: int, a1y: int, a2x: int, a2y: int, b1x: int, b1y: int, b2x: int, b2y: int) -> Option<(int, int)> {
    let d = det_spec(a1x, a1y, a2x, a2y, b1x, b1y, b2x, b2y);
    if -1_000_000 < d < 1_000_000 {
        None
    } else {
        let tn = (a1x - b1x) * (b1y - b2y) - (a1y - b1y) * (b1x - b2x);
        Some(
            (
                a1x + rdiv_s(tn * (a2x - a1x), d),
                a1y + rdiv_s(tn * (a2y - a1y), d),
            ),
        )
    }
}

/// The product of two bounded factors is bounded by the product of the
/// bounds.
pub proof fn lemma_mul_bound(x: int, y: int, mx: int, my: int)
    requires
        -mx <= x <= mx,
        -my <= y <= my,
        0 <= mx,
        0 <= my,
    ensures
        -(mx * my) <= x * y <= mx * my,
{
    assert(-(mx * my) <= x * y <= mx * my) by (nonlinear_arith)
        requires -mx <= x <= mx && -my <= y <= my && 0 <= mx && 0 <= my;
}

/// The magnitude of an integer.
pub open spec fn iabs(x: int) -> int {
    if x >= 0 {
        x
    } else {
        -x
    }
}

/// The rounding error of `rdiv_s` is at most half a unit of the divisor.
pub proof fn lemma_rdiv_s_error(n: int, d: int)
    requires
        d != 0,
    ensures
        iabs(2 * (rdiv_s(n, d) * d - n)) <= iabs(d),
{
    if d > 0 {
        lemma_rdiv_error(n, d);
    } else {
        lemma_rdiv_error(-n, -d);
        let q = rdiv(-n, -d);
        assert(q * (-d) == -(q * d)) by (nonlinear_arith);
    }
}

/// From `-m * k <= m * x <= m * k` with `m >= 1` follows `-k <= x <= k`.
proof fn lemma_div_cancel(m: int, x: int, k: int)
    requires
        m >= 1,
        0 <= k,
        -(m * k) <= m * x <= m * k,
    ensures
        -k <= x <= k,
{
    assert(-k <= x <= k) by (nonlinear_arith)
        requires m >= 1 && 0 <= k && -(m * k) <= m * x <= m * k;
}

/// When the two lines are not parallel, the returned point satisfies both
/// line equations to within half a micro-unit: for each line, twice the
/// cross product of (point - base) with the direction is bounded by the sum
/// of the direction components' magnitudes.
pub proof fn lemma_intersect_on_lines(
    a1x: int,
    a1y: int,
    a2x: int,
    a2y: int,
    b1x: int,
    b1y: int,
    b2x: int,
    b2y: int,
)
    requires
        intersect_spec(a1x, a1y, a2x, a2y, b1x, b1y, b2x, b2y) is Some,
    ensures
        match intersect_spec(a1x, a1y, a2x, a2y, b1x, b1y, b2x, b2y) {
            Option::Some(p) => iabs(
                2 * ((p.0 - a1x) * (a2y - a1y) - (p.1 - a1y) * (a2x - a1x)),
            ) <= iabs(a2x - a1x) + iabs(a2y - a1y) && iabs(
                2 * ((p.0 - b1x) * (b2y - b1y) - (p.1 - b1y) * (b2x - b1x)),
            ) <= iabs(b2x - b1x) + iabs(b2y - b1y),
            Option::None => true,
        },
{
    let ux = a2x - a1x;
    let uy = a2y - a1y;
    let vx = b2x - b1x;
    let vy = b2y - b1y;
    let wx = a1x - b1x;
    let wy = a1y - b1y;
    let d = det_spec(a1x, a1y, a2x, a2y, b1x, b1y, b2x, b2y);
    assert(d == ux * vy - uy * vx) by (nonlinear_arith)
        requires
            d == (a1x - a2x) * (b1y - b2y) - (a1y - a2y) * (b1x - b2x) && ux == a2x - a1x && uy
                == a2y - a1y && vx == b2x - b1x && vy == b2y - b1y;
    let tn = (a1x - b1x) * (b1y - b2y) - (a1y - b1y) * (b1x - b2x);
    assert(tn == wy * vx - wx * vy) by (nonlinear_arith)
        requires
            tn == (a1x - b1x) * (b1y - b2y) - (a1y - b1y) * (b1x - b2x) && wx == a1x - b1x && wy
                == a1y - b1y && vx == b2x - b1x && vy == b2y - b1y;
    let qx = rdiv_s(tn * ux, d);
    let qy = rdiv_s(tn * uy, d);
    lemma_rdiv_s_error(tn * ux, d);
    lemma_rdiv_s_error(tn * uy, d);
    let sx = 2 * (qx * d - tn * ux);
    let sy = 2 * (qy * d - tn * uy);
    let m = iabs(d);
    assert(m >= 1);
    let crossa = qx * uy - qy * ux;
    assert(d * (2 * crossa) == sx * uy - sy * ux) by (nonlinear_arith)
        requires
            crossa == qx * uy - qy * ux && sx == 2 * (qx * d - tn * ux) && sy == 2 * (qy * d - tn
                * uy);
    assert(-(m * (iabs(ux) + iabs(uy))) <= sx * uy - sy * ux <= m * (iabs(ux) + iabs(uy)))
        by (nonlinear_arith)
        requires
            -m <= sx <= m && -m <= sy <= m && -(iabs(uy)) <= uy <= iabs(uy) && -(iabs(ux)) <= ux
                <= iabs(ux) && 0 <= m && 0 <= iabs(ux) && 0 <= iabs(uy);
    if d >= 1 {
        lemma_div_cancel(d, 2 * crossa, iabs(ux) + iabs(uy));
    } else {
        assert((-d) * (2 * crossa) == -(d * (2 * crossa))) by (nonlinear_arith);
        assert((-d) * (iabs(ux) + iabs(uy)) == -(d * (iabs(ux) + iabs(uy)))) by (nonlinear_arith);
        assert(d * (iabs(ux) + iabs(uy)) == -(m * (iabs(ux) + iabs(uy)))) by (nonlinear_arith)
            requires m == -d;
        lemma_div_cancel(-d, 2 * crossa, iabs(ux) + iabs(uy));
    }
    let crossb = (wx + qx) * vy - (wy + qy) * vx;
    assert(d * (2 * crossb) == 2 * (d * (wx * vy - wy * vx)) + 2 * (d * (qx * vy - qy * vx)))
        by (nonlinear_arith)
        requires crossb == (wx + qx) * vy - (wy + qy) * vx;
    assert(d * (wx * vy - wy * vx) == -(d * tn)) by (nonlinear_arith)
        requires tn == wy * vx - wx * vy;
    assert(sx * vy == 2 * (d * (qx * vy)) - 2 * (tn * (ux * vy))) by (nonlinear_arith)
        requires sx == 2 * (qx * d - tn * ux);
    assert(sy * vx == 2 * (d * (qy * vx)) - 2 * (tn * (uy * vx))) by (nonlinear_arith)
        requires sy == 2 * (qy * d - tn * uy);
    assert(2 * (d * (qx * vy - qy * vx)) == 2 * (d * (qx * vy)) - 2 * (d * (qy * vx)))
        by (nonlinear_arith);
    assert(2 * (tn * (ux * vy - uy * vx)) == 2 * (tn * (ux * vy)) - 2 * (tn * (uy * vx)))
        by (nonlinear_arith);
    assert(sx * vy - sy * vx == 2 * (d * (qx * vy - qy * vx)) - 2 * (tn * (ux * vy - uy * vx)));
    assert(tn * (ux * vy - uy * vx) == d * tn) by (nonlinear_arith)
        requires d == ux * vy - uy * vx;
    assert(d * (2 * crossb) == sx * vy - sy * vx);
    assert(-(m * (iabs(vx) + iabs(vy))) <= sx * vy - sy * vx <= m * (iabs(vx) + iabs(vy)))
        by (nonlinear_arith)
        requires
            -m <= sx <= m && -m <= sy <= m && -(iabs(vy)) <= vy <= iabs(vy) && -(iabs(vx)) <= vx
                <= iabs(vx) && 0 <= m && 0 <= iabs(vx) && 0 <= iabs(vy);
    if d >= 1 {
        lemma_div_cancel(d, 2 * crossb, iabs(vx) + iabs(vy));
    } else {
        assert((-d) * (2 * crossb) == -(d * (2 * crossb))) by (nonlinear_arith);
        assert((-d) * (iabs(vx) + iabs(vy)) == -(d * (iabs(vx) + iabs(vy)))) by (nonlinear_arith);
        assert(d * (iabs(vx) + iabs(vy)) == -(m * (iabs(vx) + iabs(vy)))) by (nonlinear_arith)
            requires m == -d;
        lemma_div_cancel(-d, 2 * crossb, iabs(vx) + iabs(vy));
    }
    let p = (a1x + qx, a1y + qy);
    assert((p.0 - a1x) * uy - (p.1 - a1y) * ux == crossa) by (nonlinear_arith)
        requires p.0 == a1x + qx && p.1 == a1y + qy && crossa == qx * uy - qy * ux;
    assert((p.0 - b1x) * vy - (p.1 - b1y) * vx == crossb) by (nonlinear_arith)
        requires
            p.0 == a1x + qx && p.1 == a1y + qy && crossb == (wx + qx) * vy - (wy + qy) * vx && wx
                == a1x - b1x && wy == a1y - b1y;
}

/// Translating all four defining points translates the intersection by the
/// same vector and cannot change whether the lines count as parallel.
pub proof fn lemma_intersect_translate(
    tx: int,
    ty: int,
    a1x: int,
    a1y: int,
    a2x: int,
    a2y: int,
    b1x: int,
    b1y: int,
    b2x: int,
    b2y: int,
)
    ensures
        intersect_spec(
            a1x + tx,
            a1y + ty,
            a2x + tx,
            a2y + ty,
            b1x + tx,
            b1y + ty,
            b2x + tx,
            b2y + ty,
        ) == match intersect_spec(a1x, a1y, a2x, a2y, b1x, b1y, b2x, b2y) {
            Option::None => Option::<(int, int)>::None,
            Option::Some(p) => Option::Some((p.0 + tx, p.1 + ty)),
        },
{
    assert(det_spec(a1x + tx, a1y + ty, a2x + tx, a2y + ty, b1x + tx, b1y + ty, b2x + tx, b2y + ty)
        == det_spec(a1x, a1y, a2x, a2y, b1x, b1y, b2x, b2y));
    assert(((a1x + tx) - (b1x + tx)) * ((b1y + ty) - (b2y + ty)) - ((a1y + ty) - (b1y + ty)) * ((
    b1x + tx) - (b2x + tx)) == (a1x - b1x) * (b1y - b2y) - (a1y - b1y) * (b1x - b2x));
}

/// Executable rounded division for 128-bit operands.
fn rdiv_i128(n: i128, d: i128) -> (q: i128)
    requires
        d != 0,
        -100_000_000_000_000_000_000_000_000_000_000_000_000 <= n
            <= 100_000_000_000_000_000_000_000_000_000_000_000_000,
        -100_000_000_000_000_000_000_000_000_000_000_000_000 <= d
            <= 100_000_000_000_000_000_000_000_000_000_000_000_000,
    ensures
        q as int == rdiv_s(n as int, d as int),
{
    let nu: u128 = if n >= 0 {
        n as u128
    } else {
        (-n) as u128
    };
    let du: u128 = if d >= 0 {
        d as u128
    } else {
        (-d) as u128
    };
    let qu: u128 = (2 * nu + du) / (2 * du);
    proof {
        if n >= 0 {
            lemma_rdiv_mag(n as int, du as int);
        } else {
            lemma_rdiv_mag(-(n as int), du as int);
        }
    }
    let neg: bool = (n < 0) != (d < 0);
    if neg {
        -(qu as i128)
    } else {
        qu as i128
    }
}

/// Computes the intersection of the infinite lines through `a1, a2` and
/// `b1, b2`; returns nothing exactly when the determinant of the two
/// direction vectors is below the parallelism threshold.  The exact
/// intersection, when defined, must lie within the builder's coordinate
/// range; the scene built by the composer always satisfies this.
pub fn intersect(a1: Point, a2: Point, b1: Point, b2: Point) -> (r: Option<Point>)
    requires
        in_range(a1),
        in_range(a2),
        in_range(b1),
        in_range(b2),
        match intersect_spec(
            a1.x as int, a1.y as int, a2.x as int, a2.y as int,
            b1.x as int, b1.y as int, b2.x as int, b2.y as int,
        ) {
            Option::None => true,
            Option::Some(p) => -1_000_000_000_000_000 <= p.0 <= 1_000_000_000_000_000
                && -1_000_000_000_000_000 <= p.1 <= 1_000_000_000_000_000,
        },
    ensures
        match r {
            Option::None => intersect_spec(
                a1.x as int, a1.y as int, a2.x as int, a2.y as int,
                b1.x as int, b1.y as int, b2.x as int, b2.y as int,
            ) is None,
            Option::Some(p) => intersect_spec(
                a1.x as int, a1.y as int, a2.x as int, a2.y as int,
                b1.x as int, b1.y as int, b2.x as int, b2.y as int,
            ) == Some((p.x as int, p.y as int)),
        },
{
    let a1x = a1.x as i128;
    let a1y = a1.y as i128;
    let a2x = a2.x as i128;
    let a2y = a2.y as i128;
    let b1x = b1.x as i128;
    let b1y = b1.y as i128;
    let b2x = b2.x as i128;
    let b2y = b2.y as i128;
    proof {
        lemma_mul_bound((a1x - a2x) as int, (b1y - b2y) as int, 800_000_000_000, 800_000_000_000);
        lemma_mul_bound((a1y - a2y) as int, (b1x - b2x) as int, 800_000_000_000, 800_000_000_000);
        lemma_mul_bound((a1x - b1x) as int, (b1y - b2y) as int, 800_000_000_000, 800_000_000_000);
        lemma_mul_bound((a1y - b1y) as int, (b1x - b2x) as int, 800_000_000_000, 800_000_000_000);
    }
    let d: i128 = (a1x - a2x) * (b1y - b2y) - (a1y - a2y) * (b1x - b2x);
    if -EPS_DET < d && d < EPS_DET {
        return Option::None;
    }
    let tn: i128 = (a1x - b1x) * (b1y - b2y) - (a1y - b1y) * (b1x - b2x);
    proof {
        lemma_mul_bound(tn as int, (a2x - a1x) as int, 1_280_000_000_000_000_000_000_000, 800_000_000_000);
        lemma_mul_bound(tn as int, (a2y - a1y) as int, 1_280_000_000_000_000_000_000_000, 800_000_000_000);
    }
    let qx: i128 = rdiv_i128(tn * (a2x - a1x), d);
    let qy: i128 = rdiv_i128(tn * (a2y - a1y), d);
    let px: i128 = a1x + qx;
    let py: i128 = a1y + qy;
    Option::Some(Point { x: px as i64, y: py as i64 })
}

} // verus!
