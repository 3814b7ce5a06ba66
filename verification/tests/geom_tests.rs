use intwerp::arith::isqrt;
use intwerp::arith::trunc_div_i128;
use intwerp::geom::bezier_point;
use intwerp::geom::distance;
use intwerp::geom::Pt;
use intwerp::weight::Weight;

#[test]
fn trunc_div_rounds_toward_zero() {
    assert_eq!(trunc_div_i128(7, 2), 3);
    assert_eq!(trunc_div_i128(-7, 2), -3);
    assert_eq!(trunc_div_i128(9, 3), 3);
    assert_eq!(trunc_div_i128(-9, 3), -3);
    assert_eq!(trunc_div_i128(0, 5), 0);
}

#[test]
fn isqrt_exact_values() {
    assert_eq!(isqrt(0), 0);
    assert_eq!(isqrt(1), 1);
    assert_eq!(isqrt(99), 9);
    assert_eq!(isqrt(100), 10);
    assert_eq!(isqrt(101), 10);
    assert_eq!(isqrt(1_000_000_000_000), 1_000_000);
}

#[test]
fn distance_is_floor_euclidean() {
    assert_eq!(distance(Pt { x: 0, y: 0 }, Pt { x: 3, y: 4 }), 5);
    assert_eq!(distance(Pt { x: -3, y: -4 }, Pt { x: 0, y: 0 }), 5);
    assert_eq!(distance(Pt { x: 0, y: 0 }, Pt { x: 1, y: 1 }), 1);
    assert_eq!(distance(Pt { x: 2, y: 2 }, Pt { x: 2, y: 2 }), 0);
}

// The collinear midpoint sample must be exact: with p0=(0,0), p1=(5,0),
// p2=(10,0) and twenty subdivisions, the sample at i=10 is (5,0).
#[test]
fn collinear_midpoint_is_exact() {
    let p = bezier_point(
        Pt { x: 0, y: 0 },
        Pt { x: 5, y: 0 },
        Pt { x: 10, y: 0 },
        10,
        20,
    );
    assert_eq!(p, Pt { x: 5, y: 0 });
}

#[test]
fn bezier_ends_at_p2() {
    let p0 = Pt { x: -7, y: 13 };
    let p1 = Pt { x: 40, y: -2 };
    let p2 = Pt { x: 9, y: 9 };
    assert_eq!(bezier_point(p0, p1, p2, 17, 17), p2);
}

#[test]
fn weight_rational_comparisons() {
    let half = Weight { num: 1, den: 2 };
    let third = Weight { num: 1, den: 3 };
    let two_quarters = Weight { num: 2, den: 4 };
    assert!(third.lt(&half));
    assert!(third.le(&half));
    assert!(!half.lt(&third));
    assert!(half.le(&two_quarters));
    assert!(two_quarters.le(&half));
    assert!(!half.lt(&two_quarters));
}
