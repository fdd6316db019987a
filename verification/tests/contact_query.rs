//! The pairwise contact query on concrete shapes.  One pixel is 3600
//! subpixel units; normals have length 3600.

use platformer_core::shape::{aabb, circle, contact, half_plane, Shape};
use platformer_core::util::Vec2;

fn v(x: i64, y: i64) -> Vec2 {
    Vec2 { x, y }
}

#[test]
fn aabb_aabb_overlap_on_x() {
    let a = aabb(v(57_600, 57_600));
    let b = aabb(v(57_600, 57_600));
    let c = contact(&a, v(0, 0), &b, v(100_800, 0), 0).unwrap();
    assert_eq!(c.normal, v(3_600, 0));
    assert_eq!(c.depth, 14_400);
}

#[test]
fn aabb_aabb_normal_follows_offset_sign() {
    let a = aabb(v(57_600, 57_600));
    let b = aabb(v(57_600, 57_600));
    let c = contact(&a, v(100_800, 0), &b, v(0, 0), 0).unwrap();
    assert_eq!(c.normal, v(-3_600, 0));
    assert_eq!(c.depth, 14_400);
}

#[test]
fn aabb_aabb_tie_prefers_x_axis() {
    let a = aabb(v(3_600, 3_600));
    let b = aabb(v(3_600, 3_600));
    let c = contact(&a, v(0, 0), &b, v(3_600, 3_600), 0).unwrap();
    assert_eq!(c.normal, v(3_600, 0));
    assert_eq!(c.depth, 3_600);
}

#[test]
fn aabb_aabb_smaller_overlap_wins() {
    let a = aabb(v(57_600, 57_600));
    let b = aabb(v(57_600, 57_600));
    // Deep on x, shallow on y: the y axis resolves.
    let c = contact(&a, v(0, 0), &b, v(7_200, -100_800), 0).unwrap();
    assert_eq!(c.normal, v(0, -3_600));
    assert_eq!(c.depth, 14_400);
}

#[test]
fn aabb_aabb_separate_is_none() {
    let a = aabb(v(3_600, 3_600));
    let b = aabb(v(3_600, 3_600));
    assert!(contact(&a, v(0, 0), &b, v(10_801, 0), 0).is_none());
}

#[test]
fn aabb_aabb_touching_has_zero_depth() {
    let a = aabb(v(3_600, 3_600));
    let b = aabb(v(3_600, 3_600));
    let c = contact(&a, v(0, 0), &b, v(7_200, 0), 0).unwrap();
    assert_eq!(c.depth, 0);
}

#[test]
fn aabb_aabb_margin_reports_near_miss() {
    let a = aabb(v(3_600, 3_600));
    let b = aabb(v(3_600, 3_600));
    // A gap of 2800 subunits: within a 3600 margin, depth negative.
    let c = contact(&a, v(0, 0), &b, v(10_000, 0), 3_600).unwrap();
    assert_eq!(c.depth, -2_800);
    assert_eq!(c.normal, v(3_600, 0));
    assert!(contact(&a, v(0, 0), &b, v(10_000, 0), 0).is_none());
}

#[test]
fn circle_circle_pythagorean_normal() {
    let a = circle(3_600);
    let b = circle(3_600);
    let c = contact(&a, v(0, 0), &b, v(3_000, 4_000), 0).unwrap();
    // Distance 5000, so the unit normal is exactly (3/5, 4/5).
    assert_eq!(c.depth, 2_200);
    assert_eq!(c.normal, v(2_160, 2_880));
}

#[test]
fn circle_circle_coincident_picks_x_axis() {
    let a = circle(3_600);
    let b = circle(3_600);
    let c = contact(&a, v(7, 9), &b, v(7, 9), 0).unwrap();
    assert_eq!(c.normal, v(3_600, 0));
    assert_eq!(c.depth, 7_200);
}

#[test]
fn circle_circle_separate_is_none() {
    let a = circle(3_600);
    let b = circle(3_600);
    assert!(contact(&a, v(0, 0), &b, v(7_300, 0), 0).is_none());
}

#[test]
fn aabb_circle_face_contact() {
    let a = aabb(v(57_600, 57_600));
    let b = circle(3_600);
    // The circle sits just right of the box's right face.
    let c = contact(&a, v(0, 0), &b, v(59_000, 0), 0).unwrap();
    assert_eq!(c.normal, v(3_600, 0));
    assert_eq!(c.depth, 2_200);
}

#[test]
fn aabb_circle_center_inside_uses_least_exit() {
    let a = aabb(v(57_600, 28_800), );
    let b = circle(3_600);
    let c = contact(&a, v(0, 0), &b, v(7_200, 3_600), 0).unwrap();
    // Exit through y is far cheaper than through x.
    assert_eq!(c.normal, v(0, 3_600));
    assert_eq!(c.depth, 28_800 + 3_600 - 3_600);
}

#[test]
fn circle_aabb_flips_normal() {
    let a = circle(3_600);
    let b = aabb(v(57_600, 57_600));
    let c = contact(&a, v(59_000, 0), &b, v(0, 0), 0).unwrap();
    assert_eq!(c.normal, v(-3_600, 0));
    assert_eq!(c.depth, 2_200);
}

#[test]
fn aabb_circle_corner_within_margin() {
    let a = aabb(v(7_200, 7_200));
    let b = circle(3_600);
    // Corner gap of sqrt(2) * 3600 - 3600: absent at margin 0, reported
    // within a one-pixel margin with the diagonal normal.
    assert!(contact(&a, v(0, 0), &b, v(10_800, 10_800), 0).is_none());
    let c = contact(&a, v(0, 0), &b, v(10_800, 10_800), 3_600).unwrap();
    assert_eq!(c.depth, 3_600 - 5_091);
    assert_eq!(c.normal, v(2_545, 2_545));
}

#[test]
fn halfplane_aabb_support_contact() {
    // A floor: everything below y = 1_440_000 is free, the plane's outward
    // normal points up (negative y in this y-down world).
    let plane = half_plane(v(0, -3_600));
    let b = aabb(v(57_600, 115_200));
    assert!(contact(&plane, v(0, 1_440_000), &b, v(0, 1_260_000), 0).is_none());
    let c = contact(&plane, v(0, 1_440_000), &b, v(0, 1_339_200), 0).unwrap();
    assert_eq!(c.normal, v(0, -3_600));
    assert_eq!(c.depth, 14_400);
}

#[test]
fn aabb_halfplane_flips_normal() {
    let plane = half_plane(v(0, -3_600));
    let b = aabb(v(57_600, 115_200));
    let c = contact(&b, v(0, 1_339_200), &plane, v(0, 1_440_000), 0).unwrap();
    assert_eq!(c.normal, v(0, 3_600));
    assert_eq!(c.depth, 14_400);
}

#[test]
fn halfplane_circle_contact() {
    let plane = half_plane(v(0, -3_600));
    let b = circle(3_600);
    let c = contact(&plane, v(0, 100_000), &b, v(50, 97_000), 0).unwrap();
    assert_eq!(c.normal, v(0, -3_600));
    // Center 3000 above the boundary, radius 3600.
    assert_eq!(c.depth, 600);
}

#[test]
fn halfplane_oblique_normal_uses_support() {
    // A 3-4-5 slope normal, exactly unit length in subpixel terms.
    let plane = half_plane(v(2_160, -2_880));
    let b = aabb(v(3_600, 3_600));
    let c = contact(&plane, v(0, 0), &b, v(0, 0), 0).unwrap();
    assert_eq!(c.normal, v(2_160, -2_880));
    // Support radius: (|2160| * 3600 + |2880| * 3600) / 3600 = 5040.
    assert_eq!(c.depth, 5_040);
}

#[test]
fn halfplane_halfplane_is_undefined() {
    let a = half_plane(v(0, -3_600));
    let b = half_plane(v(0, 3_600));
    assert!(contact(&a, v(0, 0), &b, v(0, 0), 0).is_none());
}

#[test]
fn shape_constructors_build_variants() {
    assert!(matches!(aabb(v(1, 2)), Shape::Aabb { .. }));
    assert!(matches!(circle(5), Shape::Circle { radius: 5 }));
    assert!(matches!(half_plane(v(3_600, 0)), Shape::HalfPlane { .. }));
}
