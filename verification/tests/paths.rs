use trimark::geom::{intersect, lerp_point, place_on_circle, sqrt2_half_i64, sqrt3_half_i64, Point};
use trimark::num::{lerp_i64, millis_i64, rdiv_i64};
use trimark::path::PathBuilder;

#[test]
fn rounded_division_rounds_half_away_from_zero() {
    assert_eq!(rdiv_i64(5, 2), 3);
    assert_eq!(rdiv_i64(-5, 2), -3);
    assert_eq!(rdiv_i64(7, 2), 4);
    assert_eq!(rdiv_i64(1, 2), 1);
    assert_eq!(rdiv_i64(4, 2), 2);
    assert_eq!(rdiv_i64(-1, 2), -1);
    assert_eq!(rdiv_i64(0, 7), 0);
    assert_eq!(rdiv_i64(2, 3), 1);
    assert_eq!(rdiv_i64(1, 3), 0);
}

#[test]
fn milli_rounding_moves_by_at_most_half_a_milli() {
    // the rounding function never moves a value by more than 0.0005 units
    for &x in &[0i64, 1, 499, 500, 501, 999, 1000, 1499, 1500, -499, -500, -501, 874_372_400] {
        let m = millis_i64(x);
        assert!((m * 1000 - x).abs() <= 500, "x={x} m={m}");
    }
    assert_eq!(millis_i64(499), 0);
    assert_eq!(millis_i64(500), 1);
    assert_eq!(millis_i64(-500), -1);
    assert_eq!(millis_i64(1500), 2);
}

#[test]
fn milli_rounding_is_idempotent() {
    // rounding an already rounded value changes nothing
    for &x in &[0i64, 1, 499, 500, 123_456_789, -987_654_321] {
        let once = millis_i64(x) * 1000;
        let twice = millis_i64(once) * 1000;
        assert_eq!(once, twice);
    }
}

#[test]
fn lerp_hits_exact_fractions() {
    assert_eq!(lerp_i64(0, 1_000_000, 300), 300_000);
    assert_eq!(lerp_i64(0, 1_000_000, 0), 0);
    assert_eq!(lerp_i64(0, 1_000_000, 1000), 1_000_000);
    assert_eq!(lerp_i64(2_000_000, 1_000_000, 500), 1_500_000);
}

#[test]
fn square_root_scalings_match_reference_values() {
    // 690 * sqrt(3) / 2 = 597.557529 units, 170 * sqrt(2) / 2 = 120.208153
    assert_eq!(sqrt3_half_i64(690_000_000), 597_557_529);
    assert_eq!(sqrt2_half_i64(170_000_000), 120_208_153);
    assert_eq!(sqrt3_half_i64(0), 0);
}

#[test]
fn corners_sit_on_the_circle() {
    let center = Point { x: 500_000_000, y: 530_000_000 };
    let c0 = place_on_circle(center, 690_000_000, 0);
    let c1 = place_on_circle(center, 690_000_000, 1);
    let c2 = place_on_circle(center, 690_000_000, 2);
    assert_eq!(c0, Point { x: 500_000_000, y: 530_000_000 - 690_000_000 });
    assert_eq!(c1, Point { x: 500_000_000 + 597_557_529, y: 530_000_000 + 345_000_000 });
    assert_eq!(c2, Point { x: 500_000_000 - 597_557_529, y: 530_000_000 + 345_000_000 });
    // squared distances from the center agree to within twice the radius
    let r2 = 690_000_000i128 * 690_000_000;
    for c in [c0, c1, c2] {
        let dx = (c.x - center.x) as i128;
        let dy = (c.y - center.y) as i128;
        assert!((dx * dx + dy * dy - r2).abs() <= 2 * 690_000_000);
    }
}

#[test]
fn intersect_finds_perpendicular_crossing() {
    let p = intersect(
        Point { x: 0, y: 0 },
        Point { x: 2_000_000, y: 0 },
        Point { x: 1_000_000, y: -1_000_000 },
        Point { x: 1_000_000, y: 1_000_000 },
    );
    assert_eq!(p, Some(Point { x: 1_000_000, y: 0 }));
}

#[test]
fn intersect_rejects_exactly_parallel_lines() {
    let p = intersect(
        Point { x: 0, y: 0 },
        Point { x: 1_000_000, y: 0 },
        Point { x: 0, y: 1_000_000 },
        Point { x: 1_000_000, y: 1_000_000 },
    );
    assert_eq!(p, None);
}

#[test]
fn intersect_threshold_separates_near_parallel_lines() {
    // determinant 999_000: below the threshold of 10^6, degenerate
    let below = intersect(
        Point { x: 0, y: 0 },
        Point { x: 1000, y: 0 },
        Point { x: 0, y: 1_000_000 },
        Point { x: 1000, y: 1_000_999 },
    );
    assert_eq!(below, None);
    // determinant 1_001_000: above the threshold, a point comes back
    let above = intersect(
        Point { x: 0, y: 0 },
        Point { x: 1000, y: 0 },
        Point { x: 0, y: 1_000_000 },
        Point { x: 1000, y: 1_001_001 },
    );
    assert!(above.is_some());
}

#[test]
fn intersect_result_lies_on_both_lines() {
    let a1 = Point { x: 10_000, y: 20_000 };
    let a2 = Point { x: 3_000_000, y: 1_700_000 };
    let b1 = Point { x: -50_000, y: 2_000_000 };
    let b2 = Point { x: 2_500_000, y: -400_000 };
    let p = intersect(a1, a2, b1, b2).expect("lines are not parallel");
    let check = |p: Point, base: Point, tip: Point| {
        let ux = (tip.x - base.x) as i128;
        let uy = (tip.y - base.y) as i128;
        let cross = (p.x - base.x) as i128 * uy - (p.y - base.y) as i128 * ux;
        assert!((2 * cross).abs() <= ux.abs() + uy.abs());
    };
    check(p, a1, a2);
    check(p, b1, b2);
}

#[test]
fn lerp_point_interpolates_componentwise() {
    let a = Point { x: 0, y: 1_000_000 };
    let b = Point { x: 1_000_000, y: 3_000_000 };
    let m = lerp_point(a, b, 250);
    assert_eq!(m, Point { x: 250_000, y: 1_500_000 });
}

#[test]
fn path_builder_formats_commands() {
    let mut b = PathBuilder::new();
    b.move_to(Point { x: 1_000_000, y: 2_500_000 });
    b.line_to(Point { x: -500, y: 874_372_000 });
    b.cubic_to(
        Point { x: 0, y: 0 },
        Point { x: 120_500_000, y: 50_000 },
        Point { x: 1_000, y: -1_000 },
    );
    b.close();
    let s = b.finish();
    assert_eq!(s, "M1,2.5L-0.001,874.372C0,0 120.5,0.05 0.001,-0.001Z");
}

#[test]
fn close_is_a_content_no_op_on_an_empty_builder() {
    let mut b = PathBuilder::new();
    b.close();
    assert_eq!(b.finish(), "");
}

#[test]
fn close_emits_the_marker_after_a_command() {
    let mut b = PathBuilder::new();
    b.move_to(Point { x: 0, y: 0 });
    b.close();
    assert_eq!(b.finish(), "M0,0Z");
}

#[test]
fn triangle_path_matches_the_grammar() {
    let center = Point { x: 500_000_000, y: 530_000_000 };
    let c0 = place_on_circle(center, 690_000_000, 0);
    let c1 = place_on_circle(center, 690_000_000, 1);
    let c2 = place_on_circle(center, 690_000_000, 2);
    let s = trimark::compose::rounded_triangle_path(c0, c1, c2, 300, 700);
    assert!(s.starts_with('M'));
    assert!(s.ends_with('Z'));
    assert_eq!(s.matches('C').count(), 3);
    assert_eq!(s.matches('L').count(), 2);
    assert_eq!(s.matches('M').count(), 1);
    assert!(s
        .chars()
        .all(|c| c.is_ascii_digit() || "MLCZ.,- ".contains(c)));
}

#[test]
fn triangle_path_start_and_end_differ() {
    let center = Point { x: 500_000_000, y: 530_000_000 };
    let c0 = place_on_circle(center, 690_000_000, 0);
    let c1 = place_on_circle(center, 690_000_000, 1);
    let c2 = place_on_circle(center, 690_000_000, 2);
    // the move point and the final cubic endpoint are distinct points
    let start = lerp_point(c2, c0, 700);
    let last_end = lerp_point(c2, c0, 300);
    let first_end = lerp_point(c0, c1, 300);
    assert_ne!(start, last_end);
    assert_ne!(start, first_end);
}
