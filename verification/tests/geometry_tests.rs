//! Tests of the fixed-point scalars, vectors and polygon queries.

use vlife::bounding_box::AxisAlignedBoundingBox;
use vlife::polygon::ClosedPolygon;
use vlife::random::RandomSource;
use vlife::scalar::{RealConst, Scalar, SCALE};
use vlife::vec2::V2;

fn units(u: i32) -> Scalar {
    Scalar::from_units(u)
}

fn pt(x: i32, y: i32) -> V2 {
    V2::new(units(x), units(y))
}

#[test]
fn scalar_arithmetic_is_exact_in_range() {
    assert_eq!(units(3).plus(units(4)).raw, 7 * SCALE);
    assert_eq!(units(3).times(units(4)).raw, 12 * SCALE);
    assert_eq!(units(10).over(units(4)).raw, 2 * SCALE + SCALE / 2);
    assert_eq!(units(-7).minus(units(5)).raw, -12 * SCALE);
    assert_eq!(units(4).sqrt().raw, 2 * SCALE);
    assert_eq!(units(2).sqrt().raw, 1_414_213_562);
}

#[test]
fn scalar_saturates_at_the_bounds() {
    let top = Scalar { raw: i64::MAX };
    assert_eq!(top.plus(top).raw, i64::MAX);
    assert_eq!(top.neg().plus(top.neg()).raw, i64::MIN);
}

#[test]
fn angle_wrapping_lands_in_one_turn() {
    let two_pi = Scalar::two_pi();
    let wrapped = units(-1).wrap_mod(two_pi);
    assert_eq!(wrapped.raw, two_pi.raw - SCALE);
    let wrapped2 = two_pi.plus(units(1)).wrap_mod(two_pi);
    assert_eq!(wrapped2.raw, SCALE);
}

#[test]
fn trigonometry_matches_known_points() {
    let pi = Scalar::pi();
    let half_pi = Scalar { raw: pi.raw / 2 };
    assert_eq!(Scalar { raw: 0 }.sin().raw, 0);
    let s = half_pi.sin().raw;
    assert!((s - SCALE).abs() < 1_000, "sin(pi/2) raw {}", s);
    let c = pi.cos().raw;
    assert!((c + SCALE).abs() < 1_000, "cos(pi) raw {}", c);
    let e = Scalar::one().exp().raw;
    assert!((e - 2_718_281_828i64).abs() < 100, "exp(1) raw {}", e);
    let sig = Scalar { raw: 0 }.sigmoid().raw;
    assert!((sig - SCALE / 2).abs() < 10, "sigmoid(0) raw {}", sig);
}

#[test]
fn vector_magnitude_is_euclidean() {
    let v = V2::new(units(3), units(4));
    assert_eq!(v.magnitude().raw, 5 * SCALE);
}

#[test]
fn boxes_overlap_exactly_when_close_enough() {
    let a = AxisAlignedBoundingBox::from_min_max(pt(0, 0), pt(10, 10));
    let b = AxisAlignedBoundingBox::from_min_max(pt(9, 9), pt(20, 20));
    let c = AxisAlignedBoundingBox::from_min_max(pt(11, 11), pt(20, 20));
    assert!(a.intersects(&b));
    assert!(!a.intersects(&c));
    assert!(a.contains_point(pt(5, 5)));
    assert!(!a.contains_point(pt(11, 5)));
}

#[test]
fn square_ray_cast_separates_inside_from_outside() {
    let points = vec![pt(0, 0), pt(10, 0), pt(10, 10), pt(0, 10)];
    let polygon = ClosedPolygon::new(&points);
    assert!(polygon.has_point_inside(pt(5, 5)));
    assert!(polygon.has_point_inside(pt(1, 9)));
    assert!(!polygon.has_point_inside(pt(15, 5)));
    assert!(!polygon.has_point_inside(pt(5, -1)));
    assert!(!polygon.has_point_inside(pt(-3, 5)));
}

#[test]
fn convex_ring_contains_its_center_only() {
    // a rough octagon around (10, 10)
    let points = vec![
        pt(10, 2),
        pt(16, 4),
        pt(18, 10),
        pt(16, 16),
        pt(10, 18),
        pt(4, 16),
        pt(2, 10),
        pt(4, 4),
    ];
    let polygon = ClosedPolygon::new(&points);
    assert!(polygon.has_point_inside(pt(10, 10)));
    assert!(polygon.has_point_inside(pt(13, 9)));
    assert!(!polygon.has_point_inside(pt(19, 10)));
    assert!(!polygon.has_point_inside(pt(0, 0)));
}

#[test]
fn closest_segment_prefers_the_nearest_edge() {
    let points = vec![pt(0, 0), pt(10, 0), pt(10, 10), pt(0, 10)];
    let polygon = ClosedPolygon::new(&points);
    let probe = AxisAlignedBoundingBox::from_min_max(pt(-5, -5), pt(15, 15));
    let mut rng = RandomSource::new(1);
    let hit = polygon
        .closest_segment_within_bounding_box(pt(5, 1), &probe, &mut rng)
        .expect("an eligible segment");
    // the depth is a signed perpendicular distance, so for a point near
    // the bottom of this ring the top edge carries the smallest value
    assert_eq!(hit.index1, 2);
    assert_eq!(hit.index2, 3);
    assert!(hit.depth.raw < 0);
}
