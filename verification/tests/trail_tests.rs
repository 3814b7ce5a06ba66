use intwerp::geom::Pt;
use intwerp::trail::TrailState;
use intwerp::weight::Weight;

// Scenario: reset at the origin, one subdivision to (10,0) with scale 10,
// floor 2 and damping 9/10 gives the point (10,0), the weight
// 10 / max(10, 2) = 1.0, and a carried velocity of (9,0).
#[test]
fn single_subdivision_arc() {
    let mut t = TrailState::new(Pt { x: 5, y: 5 }, 0);
    t.reset(Pt { x: 0, y: 0 });
    t.advance(Pt { x: 10, y: 0 }, 1, 10, 2, 9, 10);
    assert_eq!(t.points_len(), 2);
    assert_eq!(t.weights_len(), 1);
    assert_eq!(t.point_at(0), Pt { x: 0, y: 0 });
    assert_eq!(t.point_at(1), Pt { x: 10, y: 0 });
    let w = t.weight_at(0);
    assert_eq!(w, Weight { num: 10, den: 10 });
    assert_eq!(w.num as f32 / w.den as f32, 1.0);
    assert_eq!(t.v_half(), Pt { x: 9, y: 0 });
}

// The buffer invariant: one more point than weights after construction,
// resets, arcs and trims.
#[test]
fn points_one_longer_than_weights() {
    let mut t = TrailState::new(Pt { x: 1, y: 2 }, 0);
    assert_eq!(t.points_len(), t.weights_len() + 1);
    t.advance(Pt { x: 30, y: 40 }, 20, 10, 2, 9, 10);
    assert_eq!(t.points_len(), t.weights_len() + 1);
    t.trim(true);
    assert_eq!(t.points_len(), t.weights_len() + 1);
    t.trim(false);
    assert_eq!(t.points_len(), t.weights_len() + 1);
    t.reset(Pt { x: 0, y: 0 });
    assert_eq!(t.points_len(), t.weights_len() + 1);
}

// Resetting twice at the same position leaves the same state as resetting
// once: one seed point, no weights, zero velocity.
#[test]
fn reset_is_idempotent() {
    let p = Pt { x: 12, y: -7 };
    let mut once = TrailState::new(Pt { x: 0, y: 0 }, 3);
    once.advance(Pt { x: 50, y: 50 }, 20, 10, 2, 9, 10);
    let mut twice = TrailState::new(Pt { x: 0, y: 0 }, 3);
    twice.advance(Pt { x: 50, y: 50 }, 20, 10, 2, 9, 10);
    once.reset(p);
    twice.reset(p);
    twice.reset(p);
    assert_eq!(once.points_len(), 1);
    assert_eq!(twice.points_len(), 1);
    assert_eq!(once.point_at(0), twice.point_at(0));
    assert_eq!(once.point_at(0), p);
    assert_eq!(once.weights_len(), 0);
    assert_eq!(twice.weights_len(), 0);
    assert_eq!(once.v_half(), Pt { x: 0, y: 0 });
    assert_eq!(twice.v_half(), Pt { x: 0, y: 0 });
    assert_eq!(once.color(), twice.color());
}

// After an arc to p2, the trail's tip is p2 exactly.
#[test]
fn arc_ends_at_sample() {
    let mut t = TrailState::new(Pt { x: -100, y: 33 }, 0);
    t.advance(Pt { x: 777, y: -456 }, 20, 10, 2, 9, 10);
    assert_eq!(t.tip(), Pt { x: 777, y: -456 });
    t.advance(Pt { x: -1, y: -2 }, 7, 10, 2, 1, 2);
    assert_eq!(t.tip(), Pt { x: -1, y: -2 });
}

// Every computed weight is positive and at most scale / floor.
#[test]
fn weights_positive_and_bounded() {
    let mut t = TrailState::new(Pt { x: 0, y: 0 }, 0);
    t.advance(Pt { x: 1000, y: 0 }, 20, 10, 2, 9, 10);
    t.advance(Pt { x: 1000, y: 1 }, 20, 10, 2, 9, 10);
    let zero = Weight { num: 0, den: 1 };
    let cap = Weight { num: 10, den: 2 };
    for i in 0..t.weights_len() {
        let w = t.weight_at(i);
        assert!(zero.lt(&w));
        assert!(w.le(&cap));
    }
}

// Rolling-window retention: the window fills to exactly 81 points and 80
// weights and never exceeds it once trimmed.
#[test]
fn rolling_window_fills_and_caps() {
    let mut t = TrailState::new(Pt { x: 0, y: 0 }, 0);
    let mut lens = Vec::new();
    for k in 0..6 {
        t.cycle(true, Pt { x: 100 * (k + 1), y: 0 }, 20, 10, 2, 9, 10);
        lens.push(t.points_len());
    }
    assert_eq!(lens, vec![21, 41, 61, 81, 101, 101]);
    t.trim(true);
    assert_eq!(t.points_len(), 81);
    assert_eq!(t.weights_len(), 80);
    t.trim(true);
    assert_eq!(t.points_len(), 81);
    assert_eq!(t.weights_len(), 80);
}

// Discard-history retention: before each arc only the tip survives, so a
// cycle always leaves exactly one arc.
#[test]
fn discard_history_keeps_one_arc() {
    let mut t = TrailState::new(Pt { x: 0, y: 0 }, 0);
    for k in 0..4 {
        t.cycle(false, Pt { x: 50 * (k + 1), y: 25 }, 20, 10, 2, 9, 10);
        assert_eq!(t.points_len(), 21);
        assert_eq!(t.weights_len(), 20);
    }
    let tip = t.tip();
    t.trim(false);
    assert_eq!(t.points_len(), 1);
    assert_eq!(t.weights_len(), 0);
    assert_eq!(t.point_at(0), tip);
}

// Strictly decreasing sample spacing produces strictly increasing weights.
#[test]
fn decreasing_spacing_thickens_stroke() {
    let mut t = TrailState::new(Pt { x: 0, y: 0 }, 0);
    t.advance(Pt { x: 1000, y: 0 }, 1, 5000, 2, 0, 1);
    t.advance(Pt { x: 1100, y: 0 }, 1, 5000, 2, 0, 1);
    t.advance(Pt { x: 1110, y: 0 }, 1, 5000, 2, 0, 1);
    let w0 = t.weight_at(0);
    let w1 = t.weight_at(1);
    let w2 = t.weight_at(2);
    assert!(w0.lt(&w1));
    assert!(w1.lt(&w2));
}

// Switching the color restarts the trail and keeps the new color.
#[test]
fn color_switch_restarts_trail() {
    let mut t = TrailState::new(Pt { x: 0, y: 0 }, 1);
    t.advance(Pt { x: 300, y: 400 }, 20, 10, 2, 9, 10);
    t.select_color(2, Pt { x: 300, y: 400 });
    assert_eq!(t.color(), 2);
    assert_eq!(t.points_len(), 1);
    assert_eq!(t.weights_len(), 0);
    assert_eq!(t.point_at(0), Pt { x: 300, y: 400 });
    assert_eq!(t.v_half(), Pt { x: 0, y: 0 });
}

// The carried velocity is the damped leg from the control point to the new
// sample, truncated toward zero.
#[test]
fn momentum_is_damped_exactly() {
    let mut t = TrailState::new(Pt { x: 0, y: 0 }, 0);
    t.advance(Pt { x: 100, y: -100 }, 20, 10, 2, 9, 10);
    // p1 == p0 == (0,0), so v_half == (100 * 9 / 10, -100 * 9 / 10).
    assert_eq!(t.v_half(), Pt { x: 90, y: -90 });
    t.advance(Pt { x: 100, y: -100 }, 20, 10, 2, 9, 10);
    // p1 == (190, -190); (p2 - p1) * 9/10 == (-81, 81).
    assert_eq!(t.v_half(), Pt { x: -81, y: 81 });
}
