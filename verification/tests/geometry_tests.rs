//! Geometry and anchor math, on concrete values.

use nui::geometry::{
    cadd, clamp64, div_tz64, scale_len, Anchor, AnchorX, AnchorY, Bounds, Position, Size,
    COORD_MAX, UNIT,
};

fn pos(x: i64, y: i64) -> Position {
    Position { x: x * UNIT, y: y * UNIT }
}

fn bounds(x: i64, y: i64, w: i64, h: i64) -> Bounds {
    Bounds { x: x * UNIT, y: y * UNIT, size: Size { w: w * UNIT, h: h * UNIT } }
}

#[test]
fn test_bounds() {
    let b = bounds(10, 15, 10, 5);
    assert!(b.contains(pos(12, 18)));
    assert!(!b.contains(pos(12, 21)));
    let b = bounds(480, 0, 320, 600);
    assert!(b.contains(pos(782, 598)));
    assert!(!b.contains(pos(12, 21)));
}

#[test]
fn contains_is_edge_inclusive() {
    let b = bounds(10, 15, 10, 5);
    assert!(b.contains(pos(10, 15)));
    assert!(b.contains(pos(20, 20)));
    assert!(!b.contains(pos(9, 15)));
    assert!(!b.contains(pos(21, 15)));
}

#[test]
fn get_point_reference_points() {
    let size = Size { w: 100 * UNIT, h: 50 * UNIT };
    let p = Anchor { x: AnchorX::Left, y: AnchorY::Top }.get_point(size);
    assert_eq!((p.x, p.y), (0, 0));
    let p = Anchor { x: AnchorX::Middle, y: AnchorY::Middle }.get_point(size);
    assert_eq!((p.x, p.y), (50 * UNIT, 25 * UNIT));
    let p = Anchor { x: AnchorX::Right, y: AnchorY::Bottom }.get_point(size);
    assert_eq!((p.x, p.y), (100 * UNIT, 50 * UNIT));
}

#[test]
fn apply_to_shifts_origin_to_anchor_point() {
    let anchor = Anchor { x: AnchorX::Right, y: AnchorY::Top };
    let r = anchor.apply_to(bounds(100, 100, 20, 10));
    assert_eq!(r.x, 80 * UNIT);
    assert_eq!(r.y, 100 * UNIT);
    assert_eq!(r.size, Size { w: 20 * UNIT, h: 10 * UNIT });
}

#[test]
fn scale_len_is_exact_fixed_point() {
    // 200 units times 0.5.
    assert_eq!(scale_len(200 * UNIT, 500), 100 * UNIT);
    // Rounding is toward zero.
    assert_eq!(scale_len(3, 500), 1);
    assert_eq!(scale_len(-3, 500), -1);
    assert_eq!(scale_len(10 * UNIT, 0), 0);
}

#[test]
fn coordinate_arithmetic_saturates() {
    assert_eq!(cadd(COORD_MAX, COORD_MAX), COORD_MAX);
    assert_eq!(cadd(-COORD_MAX, -COORD_MAX), -COORD_MAX);
    assert_eq!(cadd(3, 4), 7);
    assert_eq!(clamp64(COORD_MAX + 1), COORD_MAX);
}

#[test]
fn division_rounds_toward_zero() {
    assert_eq!(div_tz64(5, 2), 2);
    assert_eq!(div_tz64(-5, 2), -2);
    assert_eq!(div_tz64(0, 7), 0);
}
