//! 2-D points in fixed-point integer coordinates, quadratic Bezier
//! evaluation and Euclidean distance, each proved against an exact
//! integer model.

use vstd::prelude::*;
use crate::arith::trunc_div;
use crate::arith::trunc_div_i128;
use crate::arith::isqrt;
use crate::arith::isqrt_spec;
use crate::arith::lemma_trunc_div_exact;
use crate::arith::lemma_trunc_div_bound;

verus! {

/// A point or vector with unbounded integer coordinates: the mathematical
/// model of `Pt`.
pub ghost struct PtM {
    pub x: int,
    pub y: int,
}

/// A 2-D point or vector in fixed-point coordinates. The caller picks the
/// unit (say, thousandths of a pixel); the library never rescales.
#[derive(Clone, Copy, PartialEq, Eq, Structural, Debug)]
pub struct Pt {
    pub x: i64,
    pub y: i64,
}

impl View for Pt {
    type V = PtM;

    open spec fn view(&self) -> PtM {
        PtM { x: self.x as int, y: self.y as int }
    }
}

/// Largest coordinate magnitude accepted for pointer samples and carried
/// velocities; keeps every intermediate product inside 128 bits.
pub const COORD_LIMIT: i64 = 1_000_000_000_000_000_000;

/// The coordinates of `p` are within `COORD_LIMIT` of zero.
pub open spec fn in_limit(p: PtM) -> bool {
    -COORD_LIMIT <= p.x <= COORD_LIMIT && -COORD_LIMIT <= p.y <= COORD_LIMIT
}

/// The coordinates of `p` are within `2 * COORD_LIMIT` of zero: the range of
/// an extrapolated control point, and of every curve point.
pub open spec fn in_mid_limit(p: PtM) -> bool {
    -2 * COORD_LIMIT <= p.x <= 2 * COORD_LIMIT && -2 * COORD_LIMIT <= p.y <= 2 * COORD_LIMIT
}

/// The quadratic Bezier point `t*t*p0 + 2*t*u*p1 + u*u*p2` at `t = (n-i)/n`,
/// `u = i/n`, evaluated exactly over the common denominator `n * n` and then
/// truncated toward zero, coordinate by coordinate.
pub open spec fn bezier_m(p0: PtM, p1: PtM, p2: PtM, i: int, n: int) -> PtM {
    let a = (n - i) * (n - i);
    let b = 2 * (n - i) * i;
    let c = i * i;
    PtM {
        x: trunc_div(a * p0.x + b * p1.x + c * p2.x, n * n),
        y: trunc_div(a * p0.y + b * p1.y + c * p2.y, n * n),
    }
}

/// At `i == 0` the curve starts at `p0` exactly; at `i == n` it ends at `p2`
/// exactly.
pub proof fn lemma_bezier_endpoints(p0: PtM, p1: PtM, p2: PtM, n: int)
    requires
        1 <= n,
    ensures
        bezier_m(p0, p1, p2, 0, n) == p0,
        bezier_m(p0, p1, p2, n, n) == p2,
{
    assert(1 <= n * n) by (nonlinear_arith)
        requires
            1 <= n,
    ;
    assert(((n - 0) * (n - 0)) * p0.x + (2 * (n - 0) * 0) * p1.x + (0 * 0) * p2.x == p0.x * (n
        * n)) by (nonlinear_arith);
    assert(((n - 0) * (n - 0)) * p0.y + (2 * (n - 0) * 0) * p1.y + (0 * 0) * p2.y == p0.y * (n
        * n)) by (nonlinear_arith);
    assert(((n - n) * (n - n)) * p0.x + (2 * (n - n) * n) * p1.x + (n * n) * p2.x == p2.x * (n
        * n)) by (nonlinear_arith);
    assert(((n - n) * (n - n)) * p0.y + (2 * (n - n) * n) * p1.y + (n * n) * p2.y == p2.y * (n
        * n)) by (nonlinear_arith);
    lemma_trunc_div_exact(p0.x, n * n);
    lemma_trunc_div_exact(p0.y, n * n);
    lemma_trunc_div_exact(p2.x, n * n);
    lemma_trunc_div_exact(p2.y, n * n);
}

/// Evaluates one quadratic Bezier sample.
pub fn bezier_point(p0: Pt, p1: Pt, p2: Pt, i: u32, n: u32) -> (r: Pt)
    requires
        1 <= n,
        i <= n,
        in_mid_limit(p0@),
        in_mid_limit(p1@),
        in_mid_limit(p2@),
    ensures
        r@ == bezier_m(p0@, p1@, p2@, i as int, n as int),
        in_mid_limit(r@),
{
    let ni: i128 = (n - i) as i128;
    let ii: i128 = i as i128;
    let nn: i128 = n as i128;
    proof {
        assert(0 <= (ni as int) * (ni as int) <= (nn as int) * (nn as int)
            && 0 <= 2 * (ni as int) * (ii as int)
            && 0 <= (ii as int) * (ii as int) <= (nn as int) * (nn as int)
            && 2 * (ni as int) * (ii as int) <= 2 * ((nn as int) * (nn as int))
            && (ni as int) * (ni as int) + 2 * (ni as int) * (ii as int) + (ii as int) * (ii
            as int) == (nn as int) * (nn as int)
            && 1 <= (nn as int) * (nn as int) <= 18446744073709551616int) by (nonlinear_arith)
            requires
                0 <= ni as int <= nn as int,
                0 <= ii as int <= nn as int,
                ni as int == nn as int - ii as int,
                1 <= nn as int <= 4294967295int,
        ;
    }
    let a: i128 = ni * ni;
    let b: i128 = 2 * ni * ii;
    let c: i128 = ii * ii;
    let den: i128 = nn * nn;
    let x = bezier_coord(a, b, c, den, p0.x, p1.x, p2.x);
    let y = bezier_coord(a, b, c, den, p0.y, p1.y, p2.y);
    Pt { x, y }
}

/// One coordinate of a Bezier sample: the exact weighted sum over the common
/// denominator, truncated toward zero.
fn bezier_coord(a: i128, b: i128, c: i128, den: i128, x0: i64, x1: i64, x2: i64) -> (r: i64)
    requires
        0 <= a,
        0 <= b,
        0 <= c,
        a + b + c == den,
        1 <= den <= 36893488147419103232int,  // 2 * 2^64
        -2 * COORD_LIMIT <= x0 <= 2 * COORD_LIMIT,
        -2 * COORD_LIMIT <= x1 <= 2 * COORD_LIMIT,
        -2 * COORD_LIMIT <= x2 <= 2 * COORD_LIMIT,
    ensures
        r == trunc_div(a * x0 + b * x1 + c * x2, den as int),
        -2 * COORD_LIMIT <= r <= 2 * COORD_LIMIT,
{
    proof {
        let m = 2 * COORD_LIMIT as int;
        assert(-(a * m) <= a * (x0 as int) <= a * m && -(b * m) <= b * (x1 as int) <= b * m && -(c
            * m) <= c * (x2 as int) <= c * m && a * m + b * m + c * m == m * den
            && m * den <= 73786976294838206464000000000000000000int) by (nonlinear_arith)
            requires
                0 <= a,
                0 <= b,
                0 <= c,
                a + b + c == den,
                den <= 36893488147419103232int,
                m == 2000000000000000000int,
                -m <= x0 as int <= m,
                -m <= x1 as int <= m,
                -m <= x2 as int <= m,
        ;
    }
    let num: i128 = a * (x0 as i128) + b * (x1 as i128) + c * (x2 as i128);
    proof {
        lemma_trunc_div_bound(num as int, den as int, 2 * COORD_LIMIT as int);
    }
    trunc_div_i128(num, den) as i64
}

/// The Euclidean distance between two model points, rounded down to an
/// integer: the floor square root of the exact squared distance.
pub open spec fn dist_m(a: PtM, b: PtM) -> int {
    isqrt_spec((((b.x - a.x) * (b.x - a.x)) + ((b.y - a.y) * (b.y - a.y))) as nat) as int
}

/// The Euclidean distance between two points, rounded down.
pub fn distance(a: Pt, b: Pt) -> (d: u64)
    requires
        in_mid_limit(a@),
        in_mid_limit(b@),
    ensures
        d as int == dist_m(a@, b@),
{
    let dx: i128 = b.x as i128 - a.x as i128;
    let dy: i128 = b.y as i128 - a.y as i128;
    proof {
        assert(0 <= (dx as int) * (dx as int) <= 16000000000000000000000000000000000000int && 0 <= (
        dy as int) * (dy as int) <= 16000000000000000000000000000000000000int) by (nonlinear_arith)
            requires
                -4000000000000000000int <= dx as int <= 4000000000000000000int,
                -4000000000000000000int <= dy as int <= 4000000000000000000int,
        ;
    }
    let sq: u128 = (dx * dx + dy * dy) as u128;
    isqrt(sq)
}

} // verus!
