//! The trail buffer and its three operations: `reset`, `advance` and `trim`.
//!
//! `advance` extends the trail by one quadratic arc whose control point is
//! extrapolated from the carried half-step velocity, appending one curve
//! point and one stroke weight per subdivision. `trim` applies one of the two
//! retention policies before each arc. Every operation is proved equal to a
//! total spec-level transition on the mathematical model `TrailM`.

use vstd::prelude::*;
use crate::arith::trunc_div;
use crate::arith::trunc_div_i128;
use crate::arith::lemma_trunc_div_bound;
use crate::geom::Pt;
use crate::geom::PtM;
use crate::geom::bezier_m;
use crate::geom::bezier_point;
use crate::geom::dist_m;
use crate::geom::distance;
use crate::geom::in_limit;
use crate::geom::in_mid_limit;
use crate::geom::lemma_bezier_endpoints;
use crate::geom::COORD_LIMIT;
use crate::weight::Weight;
use crate::weight::WeightM;
use crate::weight::weight_m;
use crate::weight::weight_le;
use crate::weight::weight_lt;
use crate::weight::lemma_weight_positive_bounded;

verus! {

broadcast use vstd::seq_lib::group_seq_properties;

/// Points kept under rolling-window retention: four cycles of history at
/// twenty subdivisions per cycle, plus the seed point.
pub const WINDOW_POINTS: usize = 81;

/// Weights kept under rolling-window retention: one per retained segment.
pub const WINDOW_WEIGHTS: usize = 80;

/// The mathematical model of a trail: unbounded-integer curve points, exact
/// rational weights, and the carried half-step velocity.
#[verifier::ext_equal]
pub ghost struct TrailM {
    pub points: Seq<PtM>,
    pub weights: Seq<WeightM>,
    pub v_half: PtM,
    pub color: int,
}

impl TrailM {
    /// The buffer invariant: one more point than weights (each weight
    /// describes the segment ending at the point after the first), so the
    /// point buffer is never empty.
    pub open spec fn wf(self) -> bool {
        self.points.len() == self.weights.len() + 1
    }
}

/// Restarting a trail at `p`: a single seed point, no weights, no momentum.
/// The color is kept; switching it is a separate, coupled step.
pub open spec fn reset_m(s: TrailM, p: PtM) -> TrailM {
    TrailM {
        points: seq![p],
        weights: Seq::empty(),
        v_half: PtM { x: 0, y: 0 },
        color: s.color,
    }
}

/// Switching the active color always restarts the trail at `p`.
pub open spec fn select_color_m(s: TrailM, color: int, p: PtM) -> TrailM {
    TrailM {
        points: seq![p],
        weights: Seq::empty(),
        v_half: PtM { x: 0, y: 0 },
        color: color,
    }
}

/// The estimated control point: the current tip, extrapolated forward by the
/// carried half-step velocity.
pub open spec fn control_m(s: TrailM) -> PtM {
    PtM { x: s.points.last().x + s.v_half.x, y: s.points.last().y + s.v_half.y }
}

/// The `n` curve points appended by one arc, in order: the Bezier samples at
/// `i = 1 ..= n`.
pub open spec fn arc_points(p0: PtM, p1: PtM, p2: PtM, n: int) -> Seq<PtM> {
    Seq::new(n as nat, |j: int| bezier_m(p0, p1, p2, j + 1, n))
}

/// The `n` weights appended by one arc: each from the distance between
/// consecutive curve samples (the sample at `i = 0` is `p0` itself).
pub open spec fn arc_weights(p0: PtM, p1: PtM, p2: PtM, n: int, scale: int, floor: int) -> Seq<
    WeightM,
> {
    Seq::new(
        n as nat,
        |j: int|
            weight_m(
                scale,
                floor,
                dist_m(bezier_m(p0, p1, p2, j, n), bezier_m(p0, p1, p2, j + 1, n)),
            ),
    )
}

/// The damped momentum carried to the next cycle: `(p2 - p1) * dnum / dden`,
/// truncated toward zero, coordinate by coordinate.
pub open spec fn damp_m(p1: PtM, p2: PtM, dnum: int, dden: int) -> PtM {
    PtM {
        x: trunc_div((p2.x - p1.x) * dnum, dden),
        y: trunc_div((p2.y - p1.y) * dnum, dden),
    }
}

/// One arc-extension step on the model.
pub open spec fn advance_m(
    s: TrailM,
    p2: PtM,
    n: int,
    scale: int,
    floor: int,
    dnum: int,
    dden: int,
) -> TrailM {
    let p0 = s.points.last();
    let p1 = control_m(s);
    TrailM {
        points: s.points + arc_points(p0, p1, p2, n),
        weights: s.weights + arc_weights(p0, p1, p2, n, scale, floor),
        v_half: damp_m(p1, p2, dnum, dden),
        color: s.color,
    }
}

/// The retention step run before each arc. Discard-history keeps only the
/// tip; rolling-window truncates the front so that at most `WINDOW_POINTS`
/// points remain.
pub open spec fn trim_m(s: TrailM, rolling: bool) -> TrailM {
    if !rolling {
        TrailM {
            points: seq![s.points.last()],
            weights: Seq::empty(),
            v_half: s.v_half,
            color: s.color,
        }
    } else if s.points.len() > WINDOW_POINTS {
        TrailM {
            points: s.points.subrange(
                s.points.len() - WINDOW_POINTS,
                s.points.len() as int,
            ),
            weights: s.weights.subrange(
                s.weights.len() - WINDOW_WEIGHTS,
                s.weights.len() as int,
            ),
            v_half: s.v_half,
            color: s.color,
        }
    } else {
        s
    }
}

/// The trail: an insertion-ordered point buffer, one stroke weight per
/// segment, the carried half-step velocity, and the active color attribute.
pub struct TrailState {
    points: Vec<Pt>,
    weights: Vec<Weight>,
    v_half: Pt,
    color: u32,
}

impl View for TrailState {
    type V = TrailM;

    closed spec fn view(&self) -> TrailM {
        TrailM {
            points: self.points@.map_values(|p: Pt| p@),
            weights: self.weights@.map_values(|w: Weight| w@),
            v_half: self.v_half@,
            color: self.color as int,
        }
    }
}

impl TrailState {
    /// A fresh trail, seeded with the pointer's initial position.
    pub fn new(p: Pt, color: u32) -> (s: TrailState)
        ensures
            s@ == select_color_m(s@, color as int, p@),
            s@.wf(),
    {
        let mut points: Vec<Pt> = Vec::new();
        points.push(p);
        let s = TrailState { points, weights: Vec::new(), v_half: Pt { x: 0, y: 0 }, color };
        proof {
            assert(s@ =~= select_color_m(s@, color as int, p@));
        }
        s
    }

    /// Whether the buffer invariant holds; true for every state these
    /// operations produce.
    pub fn is_wf(&self) -> (r: bool)
        ensures
            r == self@.wf(),
    {
        self.points.len() > 0 && self.points.len() - 1 == self.weights.len()
    }

    /// Starts a new trail at `p`, clearing points, weights and momentum.
    pub fn reset(&mut self, p: Pt)
        ensures
            final(self)@ == reset_m(old(self)@, p@),
            final(self)@.wf(),
    {
        let mut np: Vec<Pt> = Vec::new();
        np.push(p);
        self.points = np;
        self.weights = Vec::new();
        self.v_half = Pt { x: 0, y: 0 };
        proof {
            assert(self@ =~= reset_m(old(self)@, p@));
        }
    }

    /// Switches the active color, which always restarts the trail.
    pub fn select_color(&mut self, color: u32, p: Pt)
        ensures
            final(self)@ == select_color_m(old(self)@, color as int, p@),
            final(self)@.wf(),
    {
        self.reset(p);
        self.color = color;
        proof {
            assert(self@ =~= select_color_m(old(self)@, color as int, p@));
        }
    }

    /// The number of retained curve points.
    pub fn points_len(&self) -> (r: usize)
        ensures
            r == self@.points.len(),
    {
        self.points.len()
    }

    /// The number of retained segment weights.
    pub fn weights_len(&self) -> (r: usize)
        ensures
            r == self@.weights.len(),
    {
        self.weights.len()
    }

    /// The retained curve point at index `i`.
    pub fn point_at(&self, i: usize) -> (r: Pt)
        requires
            i < self@.points.len(),
        ensures
            r@ == self@.points[i as int],
    {
        self.points[i]
    }

    /// The retained segment weight at index `i`.
    pub fn weight_at(&self, i: usize) -> (r: Weight)
        requires
            i < self@.weights.len(),
        ensures
            r@ == self@.weights[i as int],
    {
        self.weights[i]
    }

    /// The trail's current tip: the most recently appended point.
    pub fn tip(&self) -> (r: Pt)
        requires
            self@.wf(),
        ensures
            r@ == self@.points.last(),
    {
        self.points[self.points.len() - 1]
    }

    /// The carried half-step velocity.
    pub fn v_half(&self) -> (r: Pt)
        ensures
            r@ == self@.v_half,
    {
        self.v_half
    }

    /// The active color attribute.
    pub fn color(&self) -> (r: u32)
        ensures
            r as int == self@.color,
    {
        self.color
    }

    /// Extends the trail by one quadratic arc ending at `p2`, appending
    /// `n` curve points and `n` weights, and carries the damped exit
    /// velocity to the next cycle.
    pub fn advance(&mut self, p2: Pt, n: u32, scale: u64, floor: u64, dnum: u32, dden: u32)
        requires
            old(self)@.wf(),
            1 <= n,
            1 <= floor,
            1 <= dden,
            dnum <= dden,
            in_limit(old(self)@.points.last()),
            in_limit(old(self)@.v_half),
            in_limit(p2@),
        ensures
            final(self)@ == advance_m(
                old(self)@,
                p2@,
                n as int,
                scale as int,
                floor as int,
                dnum as int,
                dden as int,
            ),
            final(self)@.wf(),
            final(self)@.points.len() == old(self)@.points.len() + n,
            final(self)@.points.last() == p2@,
    {
        let ghost s0 = self@;
        let ghost gn = n as int;
        let np = self.points.len();
        let p0 = self.points[np - 1];
        let p1 = Pt { x: p0.x + self.v_half.x, y: p0.y + self.v_half.y };
        let ghost gp0 = p0@;
        let ghost gp1 = p1@;
        let ghost gp2 = p2@;
        let ghost arcp = arc_points(gp0, gp1, gp2, gn);
        let ghost arcw = arc_weights(gp0, gp1, gp2, gn, scale as int, floor as int);
        proof {
            assert(gp0 == s0.points.last());
            assert(gp1 == control_m(s0));
            lemma_bezier_endpoints(gp0, gp1, gp2, gn);
        }
        let mut plast = p0;
        let mut i: u64 = 1;
        while i <= n as u64
            invariant
                1 <= i <= n as u64 + 1,
                1 <= n,
                1 <= floor,
                gn == n as int,
                s0.wf(),
                s0 == old(self)@,
                gp0 == s0.points.last(),
                gp1 == control_m(s0),
                gp2 == p2@,
                arcp == arc_points(gp0, gp1, gp2, gn),
                arcw == arc_weights(gp0, gp1, gp2, gn, scale as int, floor as int),
                in_mid_limit(gp0),
                in_mid_limit(gp1),
                in_mid_limit(gp2),
                p0@ == gp0,
                p1@ == gp1,
                plast@ == bezier_m(gp0, gp1, gp2, i as int - 1, gn),
                in_mid_limit(plast@),
                self@.points == s0.points + arcp.take(i as int - 1),
                self@.weights == s0.weights + arcw.take(i as int - 1),
                self@.v_half == s0.v_half,
                self@.color == s0.color,
            decreases n as int + 1 - i as int,
        {
            let ghost pre = self@;
            let q = bezier_point(p0, p1, p2, i as u32, n);
            let d = distance(plast, q);
            let w = Weight::of(scale, floor, d);
            self.points.push(q);
            self.weights.push(w);
            proof {
                assert(arcp.len() == gn);
                assert(arcw.len() == gn);
                assert(arcp.take(i as int).len() == i as int);
                assert(arcw.take(i as int).len() == i as int);
                assert(arcp.take(i as int - 1).len() == i as int - 1);
                assert(arcw.take(i as int - 1).len() == i as int - 1);
                assert(q@ == arcp[i as int - 1]);
                assert(w@ == arcw[i as int - 1]);
                let np2 = self@.points;
                let tp2 = s0.points + arcp.take(i as int);
                assert(pre.points.len() == s0.points.len() + i as int - 1);
                assert(pre.weights.len() == s0.weights.len() + i as int - 1);
                assert(np2.len() == pre.points.len() + 1);
                assert(np2.len() == s0.points.len() + i as int);
                assert(tp2.len() == s0.points.len() + i as int);
                assert forall|k: int| 0 <= k < np2.len() implies np2[k] == tp2[k] by {
                    if k < np2.len() - 1 {
                        assert(np2[k] == (s0.points + arcp.take(i as int - 1))[k]);
                    } else {
                        assert(np2[k] == q@);
                    }
                }
                assert(np2 =~= tp2);
                let nw2 = self@.weights;
                let tw2 = s0.weights + arcw.take(i as int);
                assert(nw2.len() == pre.weights.len() + 1);
                assert(nw2.len() == s0.weights.len() + i as int);
                assert(tw2.len() == s0.weights.len() + i as int);
                assert forall|k: int| 0 <= k < nw2.len() implies nw2[k] == tw2[k] by {
                    if k < nw2.len() - 1 {
                        assert(nw2[k] == (s0.weights + arcw.take(i as int - 1))[k]);
                    } else {
                        assert(nw2[k] == w@);
                    }
                }
                assert(nw2 =~= tw2);
            }
            plast = q;
            i = i + 1;
        }
        proof {
            lemma_damp_products_fit(gp1, gp2, dnum as int, dden as int);
            lemma_trunc_div_bound((gp2.x - gp1.x) * (dnum as int), dden as int, 4 * (
            COORD_LIMIT as int));
            lemma_trunc_div_bound((gp2.y - gp1.y) * (dnum as int), dden as int, 4 * (
            COORD_LIMIT as int));
        }
        let dxn: i128 = (p2.x as i128 - p1.x as i128) * (dnum as i128);
        let dyn_: i128 = (p2.y as i128 - p1.y as i128) * (dnum as i128);
        let vx = trunc_div_i128(dxn, dden as i128) as i64;
        let vy = trunc_div_i128(dyn_, dden as i128) as i64;
        self.v_half = Pt { x: vx, y: vy };
        proof {
            assert(arcp.take(gn) =~= arcp);
            assert(arcw.take(gn) =~= arcw);
            assert(self@ =~= advance_m(
                s0,
                gp2,
                gn,
                scale as int,
                floor as int,
                dnum as int,
                dden as int,
            ));
            assert(arcp[gn - 1] == gp2);
            assert(self@.points.last() == gp2);
        }
    }

    /// Applies the retention policy: discard-history keeps only the tip,
    /// rolling-window keeps at most the window.
    pub fn trim(&mut self, rolling: bool)
        requires
            old(self)@.wf(),
        ensures
            final(self)@ == trim_m(old(self)@, rolling),
            final(self)@.wf(),
            final(self)@.points.last() == old(self)@.points.last(),
            final(self)@.v_half == old(self)@.v_half,
            final(self)@.color == old(self)@.color,
    {
        let ghost s0 = self@;
        if !rolling {
            let np = self.points.len();
            let tip = self.points[np - 1];
            let mut pv: Vec<Pt> = Vec::new();
            pv.push(tip);
            self.points = pv;
            self.weights = Vec::new();
            proof {
                assert(self@ =~= trim_m(s0, rolling));
            }
        } else {
            while self.points.len() > WINDOW_POINTS
                invariant
                    s0.wf(),
                    self@.points.len() <= s0.points.len(),
                    self@.points.len() >= WINDOW_POINTS || self@.points.len() == s0.points.len(),
                    self@.points == s0.points.skip(s0.points.len() - self@.points.len()),
                    self@.weights == s0.weights,
                    self@.v_half == s0.v_half,
                    self@.color == s0.color,
                decreases self@.points.len(),
            {
                self.points.remove(0);
                proof {
                    assert(self@.points =~= s0.points.skip(s0.points.len() - self@.points.len()));
                }
            }
            proof {
                assert(self@.points =~= trim_m(s0, true).points);
            }
            while self.weights.len() > WINDOW_WEIGHTS
                invariant
                    s0.wf(),
                    self@.weights.len() <= s0.weights.len(),
                    self@.weights.len() >= WINDOW_WEIGHTS || self@.weights.len()
                        == s0.weights.len(),
                    self@.weights == s0.weights.skip(s0.weights.len() - self@.weights.len()),
                    self@.points == trim_m(s0, true).points,
                    self@.v_half == s0.v_half,
                    self@.color == s0.color,
                decreases self@.weights.len(),
            {
                self.weights.remove(0);
                proof {
                    assert(self@.weights =~= s0.weights.skip(
                        s0.weights.len() - self@.weights.len(),
                    ));
                }
            }
            proof {
                assert(self@ =~= trim_m(s0, true));
            }
        }
    }

    /// One full drive cycle: the retention step, then one arc. Mirrors the
    /// per-cycle update the host loop performs.
    pub fn cycle(&mut self, rolling: bool, p2: Pt, n: u32, scale: u64, floor: u64, dnum: u32, dden: u32)
        requires
            old(self)@.wf(),
            1 <= n,
            1 <= floor,
            1 <= dden,
            dnum <= dden,
            in_limit(old(self)@.points.last()),
            in_limit(old(self)@.v_half),
            in_limit(p2@),
        ensures
            final(self)@ == advance_m(
                trim_m(old(self)@, rolling),
                p2@,
                n as int,
                scale as int,
                floor as int,
                dnum as int,
                dden as int,
            ),
            final(self)@.wf(),
            final(self)@.points.last() == p2@,
    {
        self.trim(rolling);
        self.advance(p2, n, scale, floor, dnum, dden);
    }
}

/// Buffer invariant: every operation keeps `points.len() == weights.len() + 1`
/// (hence at least one point), so it holds of every reachable state.
pub proof fn lemma_ops_preserve_wf(
    s: TrailM,
    p: PtM,
    rolling: bool,
    n: int,
    scale: int,
    floor: int,
    dnum: int,
    dden: int,
)
    requires
        s.wf(),
        1 <= n,
    ensures
        reset_m(s, p).wf(),
        trim_m(s, rolling).wf(),
        advance_m(s, p, n, scale, floor, dnum, dden).wf(),
        1 <= reset_m(s, p).points.len(),
        1 <= trim_m(s, rolling).points.len(),
        1 <= advance_m(s, p, n, scale, floor, dnum, dden).points.len(),
{
}

/// Reset idempotence: resetting twice at the same position is the same as
/// resetting once.
pub proof fn lemma_reset_idempotent(s: TrailM, p: PtM)
    ensures
        reset_m(reset_m(s, p), p) == reset_m(s, p),
{
    assert(reset_m(reset_m(s, p), p) =~= reset_m(s, p));
}

/// Curve endpoint property: after an arc to `p2`, the last retained point is
/// `p2` exactly.
pub proof fn lemma_advance_endpoint(
    s: TrailM,
    p2: PtM,
    n: int,
    scale: int,
    floor: int,
    dnum: int,
    dden: int,
)
    requires
        s.wf(),
        1 <= n,
    ensures
        advance_m(s, p2, n, scale, floor, dnum, dden).points.last() == p2,
{
    lemma_bezier_endpoints(s.points.last(), control_m(s), p2, n);
    let arcp = arc_points(s.points.last(), control_m(s), p2, n);
    assert(arcp[n - 1] == p2);
    assert((s.points + arcp).last() == p2);
}

/// Rolling-window bound: the retention step leaves at most `WINDOW_POINTS`
/// points and `WINDOW_WEIGHTS` weights, and exactly that many once the trail
/// has grown to the window.
pub proof fn lemma_rolling_window_bound(s: TrailM)
    requires
        s.wf(),
    ensures
        trim_m(s, true).points.len() <= WINDOW_POINTS,
        trim_m(s, true).weights.len() <= WINDOW_WEIGHTS,
        s.points.len() >= WINDOW_POINTS ==> trim_m(s, true).points.len() == WINDOW_POINTS
            && trim_m(s, true).weights.len() == WINDOW_WEIGHTS,
{
}

/// Positivity: every weight an arc appends is strictly positive and at most
/// `scale / floor`, as rationals.
pub proof fn lemma_advance_weights_positive(
    s: TrailM,
    p2: PtM,
    n: int,
    scale: int,
    floor: int,
    dnum: int,
    dden: int,
    j: int,
)
    requires
        s.wf(),
        1 <= n,
        1 <= scale,
        1 <= floor,
        s.weights.len() <= j < advance_m(s, p2, n, scale, floor, dnum, dden).weights.len(),
    ensures
        weight_lt(
            WeightM { num: 0, den: 1 },
            advance_m(s, p2, n, scale, floor, dnum, dden).weights[j],
        ),
        weight_le(
            advance_m(s, p2, n, scale, floor, dnum, dden).weights[j],
            WeightM { num: scale, den: floor },
        ),
{
    let arcw = arc_weights(s.points.last(), control_m(s), p2, n, scale, floor);
    let k = j - s.weights.len();
    let w = advance_m(s, p2, n, scale, floor, dnum, dden).weights[j];
    assert(w == arcw[k]);
    let d = dist_m(bezier_m(s.points.last(), control_m(s), p2, k, n), bezier_m(
        s.points.last(),
        control_m(s),
        p2,
        k + 1,
        n,
    ));
    assert(w == weight_m(scale, floor, d));
    lemma_weight_positive_bounded(scale, floor, d);
}

/// Under rolling-window retention a full drive cycle (trim, then one arc of
/// `n` subdivisions) grows the buffer to `min(len, WINDOW_POINTS) + n`
/// points: bounded however many cycles run, and constant once the window has
/// filled.
pub proof fn lemma_rolling_cycle_len(
    s: TrailM,
    p2: PtM,
    n: int,
    scale: int,
    floor: int,
    dnum: int,
    dden: int,
)
    requires
        s.wf(),
        1 <= n,
    ensures
        advance_m(trim_m(s, true), p2, n, scale, floor, dnum, dden).points.len() == (
        if s.points.len() > WINDOW_POINTS {
            WINDOW_POINTS as int
        } else {
            s.points.len() as int
        }) + n,
        s.points.len() >= WINDOW_POINTS ==> advance_m(
            trim_m(s, true),
            p2,
            n,
            scale,
            floor,
            dnum,
            dden,
        ).points.len() == WINDOW_POINTS + n,
{
}

/// Discard-history bound: the retention step leaves exactly the tip and no
/// weights, so immediately before each arc the buffer holds one point.
pub proof fn lemma_discard_history_bound(s: TrailM)
    requires
        s.wf(),
    ensures
        trim_m(s, false).points.len() == 1,
        trim_m(s, false).weights.len() == 0,
        trim_m(s, false).points.last() == s.points.last(),
{
}

/// The damping products of in-range coordinates fit in 128 bits and stay
/// within `4 * COORD_LIMIT` times the denominator.
proof fn lemma_damp_products_fit(p1: PtM, p2: PtM, dnum: int, dden: int)
    requires
        in_mid_limit(p1),
        in_limit(p2),
        0 <= dnum <= dden,
        1 <= dden <= 4294967295int,
    ensures
        -((4 * COORD_LIMIT as int) * dden) <= (p2.x - p1.x) * dnum <= (4 * COORD_LIMIT as int)
            * dden,
        -((4 * COORD_LIMIT as int) * dden) <= (p2.y - p1.y) * dnum <= (4 * COORD_LIMIT as int)
            * dden,
        -17179869184000000000000000000int <= (p2.x - p1.x) * dnum
            <= 17179869184000000000000000000int,
        -17179869184000000000000000000int <= (p2.y - p1.y) * dnum
            <= 17179869184000000000000000000int,
{
    assert(-((4 * COORD_LIMIT as int) * dden) <= (p2.x - p1.x) * dnum <= (4 * COORD_LIMIT as int)
        * dden && -((4 * COORD_LIMIT as int) * dden) <= (p2.y - p1.y) * dnum <= (4
        * COORD_LIMIT as int) * dden && -17179869184000000000000000000int <= (p2.x - p1.x) * dnum
        <= 17179869184000000000000000000int && -17179869184000000000000000000int <= (p2.y - p1.y)
        * dnum <= 17179869184000000000000000000int) by (nonlinear_arith)
        requires
            -3000000000000000000int <= p2.x - p1.x <= 3000000000000000000int,
            -3000000000000000000int <= p2.y - p1.y <= 3000000000000000000int,
            0 <= dnum <= dden,
            1 <= dden <= 4294967295int,
            COORD_LIMIT as int == 1000000000000000000int,
    ;
}

} // verus!
