use geometry::line::Line;
use geometry::matrix::Matrix;
use geometry::point::Point;
use geometry::vector::Vector;

#[test]
fn point_round_trips_through_vector() {
    let p = Point::from(Vector::from((3i64, -4i64)));
    assert_eq!(p.to_vector().components(), vec![3, -4]);
}

#[test]
fn default_point_is_origin() {
    let p: Point<3> = Point::default();
    assert_eq!(p.to_vector().components(), vec![0, 0, 0]);
}

#[test]
fn line_from_origin_and_direction() {
    let origin = Point::from(Vector::from((1i64, 2i64, 3i64)));
    let dir = Vector::from((0i64, 0i64, 1i64));
    let _line = Line::from((origin, dir));
}

#[test]
fn transformed_point_demo() {
    let m: Matrix<2, 2> = Matrix::scale(2);
    let p = Point::from(Vector::from((3i64, 5i64)));
    let moved = m.mul_vector(p.to_vector());
    assert_eq!(moved.components(), vec![6, 10]);
}
