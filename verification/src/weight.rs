//! Per-segment stroke weights: the exact rational
//! `weight_scale / max(distance, weight_floor)`, with the positivity and
//! monotonicity laws of the formula.

use vstd::prelude::*;

verus! {

/// The mathematical model of `Weight`: an exact rational `num / den`.
pub ghost struct WeightM {
    pub num: int,
    pub den: int,
}

/// A stroke weight, stored as the exact rational `num / den` so that no
/// precision is lost. `den` is always at least the weight floor, hence
/// strictly positive.
#[derive(Clone, Copy, PartialEq, Eq, Structural, Debug)]
pub struct Weight {
    pub num: u64,
    pub den: u64,
}

impl View for Weight {
    type V = WeightM;

    open spec fn view(&self) -> WeightM {
        WeightM { num: self.num as int, den: self.den as int }
    }
}

/// The weight of a segment of length `d`: `scale / max(d, floor)`. The floor
/// bounds the maximum thickness and keeps the denominator away from zero when
/// the pointer is nearly stationary.
pub open spec fn weight_m(scale: int, floor: int, d: int) -> WeightM {
    WeightM { num: scale, den: if d >= floor { d } else { floor } }
}

/// `a <= b` as rationals with positive denominators.
pub open spec fn weight_le(a: WeightM, b: WeightM) -> bool {
    a.num * b.den <= b.num * a.den
}

/// `a < b` as rationals with positive denominators.
pub open spec fn weight_lt(a: WeightM, b: WeightM) -> bool {
    a.num * b.den < b.num * a.den
}

impl Weight {
    /// Computes `scale / max(d, floor)` exactly.
    pub fn of(scale: u64, floor: u64, d: u64) -> (w: Weight)
        requires
            1 <= floor,
        ensures
            w@ == weight_m(scale as int, floor as int, d as int),
            1 <= w.den,
    {
        Weight { num: scale, den: if d >= floor { d } else { floor } }
    }

    /// Whether `self <= other` as rationals.
    pub fn le(&self, other: &Weight) -> (r: bool)
        requires
            1 <= self.den,
            1 <= other.den,
        ensures
            r == weight_le(self@, other@),
    {
        proof {
            lemma_cross_products_fit(self@, other@);
        }
        (self.num as u128) * (other.den as u128) <= (other.num as u128) * (self.den as u128)
    }

    /// Whether `self < other` as rationals.
    pub fn lt(&self, other: &Weight) -> (r: bool)
        requires
            1 <= self.den,
            1 <= other.den,
        ensures
            r == weight_lt(self@, other@),
    {
        proof {
            lemma_cross_products_fit(self@, other@);
        }
        (self.num as u128) * (other.den as u128) < (other.num as u128) * (self.den as u128)
    }
}

/// The cross products of two weights drawn from 64-bit fields fit in 128
/// bits.
proof fn lemma_cross_products_fit(a: WeightM, b: WeightM)
    requires
        0 <= a.num <= 18446744073709551615int,
        0 <= a.den <= 18446744073709551615int,
        0 <= b.num <= 18446744073709551615int,
        0 <= b.den <= 18446744073709551615int,
    ensures
        0 <= a.num * b.den <= 340282366920938463426481119284349108225int,
        0 <= b.num * a.den <= 340282366920938463426481119284349108225int,
{
    assert(0 <= a.num * b.den <= 340282366920938463426481119284349108225int && 0 <= b.num * a.den
        <= 340282366920938463426481119284349108225int) by (nonlinear_arith)
        requires
            0 <= a.num <= 18446744073709551615int,
            0 <= a.den <= 18446744073709551615int,
            0 <= b.num <= 18446744073709551615int,
            0 <= b.den <= 18446744073709551615int,
    ;
}

/// Positivity: every computed weight is strictly positive and at most
/// `scale / floor`, as rationals.
pub proof fn lemma_weight_positive_bounded(scale: int, floor: int, d: int)
    ensures
        1 <= scale && 1 <= floor ==> weight_lt(
            WeightM { num: 0, den: 1 },
            weight_m(scale, floor, d),
        ),
        0 <= scale && 1 <= floor ==> weight_le(
            weight_m(scale, floor, d),
            WeightM { num: scale, den: floor },
        ),
{
    let w = weight_m(scale, floor, d);
    if 1 <= floor {
        assert(0 * w.den == 0) by (nonlinear_arith);
        if 0 <= scale {
            assert(scale * floor <= scale * w.den) by (nonlinear_arith)
                requires
                    0 <= scale,
                    floor <= w.den,
            ;
        }
    }
}

/// Monotonic thickness response: with the scale and the floor fixed, a
/// strictly longer segment at or above the floor gets a strictly smaller
/// weight.
pub proof fn lemma_weight_antitone(scale: int, floor: int, d1: int, d2: int)
    requires
        1 <= scale,
        1 <= floor,
        floor <= d1 < d2,
    ensures
        weight_lt(weight_m(scale, floor, d2), weight_m(scale, floor, d1)),
{
    assert(scale * d1 < scale * d2) by (nonlinear_arith)
        requires
            1 <= scale,
            d1 < d2,
    ;
}

} // verus!
