use point_in_map::circuit::is_point_in_polygon;
use point_in_map::fixed_point_decimal::Dec;
use point_in_map::point_2d::Point2DDec;

fn pt(x: i64, y: i64) -> Point2DDec {
    Point2DDec {
        x: Dec { val: x.unsigned_abs() as u128, neg: x < 0 },
        y: Dec { val: y.unsigned_abs() as u128, neg: y < 0 },
    }
}

/// A unit square (scaled by 100) in counter-clockwise order, padded to the
/// six-slot capacity with zero points.
fn ccw_square() -> Vec<Point2DDec> {
    vec![pt(0, 0), pt(100, 0), pt(100, 100), pt(0, 100), pt(0, 0), pt(0, 0)]
}

#[test]
fn point_inside_ccw_square_is_inside() {
    let square = ccw_square();
    assert!(is_point_in_polygon(&pt(50, 50), &square, 4));
}

#[test]
fn point_outside_ccw_square_is_outside() {
    let square = ccw_square();
    assert!(!is_point_in_polygon(&pt(150, 50), &square, 4));
    assert!(!is_point_in_polygon(&pt(-10, 50), &square, 4));
    assert!(!is_point_in_polygon(&pt(50, -10), &square, 4));
    assert!(!is_point_in_polygon(&pt(50, 150), &square, 4));
}

#[test]
fn point_on_edge_counts_as_inside() {
    let square = ccw_square();
    assert!(is_point_in_polygon(&pt(0, 50), &square, 4));
    assert!(is_point_in_polygon(&pt(0, 0), &square, 4));
}

#[test]
fn fewer_than_three_vertices_is_never_inside() {
    let square = ccw_square();
    assert!(!is_point_in_polygon(&pt(50, 50), &square, 0));
    assert!(!is_point_in_polygon(&pt(50, 50), &square, 1));
    assert!(!is_point_in_polygon(&pt(50, 50), &square, 2));
}

#[test]
fn clockwise_square_rejects_interior_point() {
    let square = vec![pt(0, 0), pt(0, 100), pt(100, 100), pt(100, 0), pt(0, 0), pt(0, 0)];
    assert!(!is_point_in_polygon(&pt(50, 50), &square, 4));
}

#[test]
fn triangle_with_negative_coordinates() {
    let tri = vec![pt(-100, -100), pt(100, -100), pt(0, 100), pt(0, 0), pt(0, 0), pt(0, 0)];
    assert!(is_point_in_polygon(&pt(0, 0), &tri, 3));
    assert!(!is_point_in_polygon(&pt(0, 150), &tri, 3));
    assert!(!is_point_in_polygon(&pt(-100, 100), &tri, 3));
}

#[test]
fn hexagon_inside_and_outside() {
    let hex = vec![
        pt(200, 0),
        pt(100, 173),
        pt(-100, 173),
        pt(-200, 0),
        pt(-100, -173),
        pt(100, -173),
    ];
    assert!(is_point_in_polygon(&pt(0, 0), &hex, 6));
    assert!(is_point_in_polygon(&pt(150, 20), &hex, 6));
    assert!(!is_point_in_polygon(&pt(250, 0), &hex, 6));
    assert!(!is_point_in_polygon(&pt(180, 170), &hex, 6));
}
