use geometry::matrix::Matrix;
use geometry::point::Point;
use geometry::vector::Vector;

#[test]
fn vector_renders_with_trailing_commas() {
    let v = Vector::from((1i64, 2i64, 3i64));
    assert_eq!(v.to_display_string(), "[1,2,3,]");
}

#[test]
fn vector_renders_negatives_and_zero() {
    let v = Vector::from((-5i64, 0i64));
    assert_eq!(v.to_display_string(), "[-5,0,]");
}

#[test]
fn vector_renders_extreme_components() {
    let v = Vector::from([i64::MIN, i64::MAX]);
    assert_eq!(
        v.to_display_string(),
        "[-9223372036854775808,9223372036854775807,]"
    );
}

#[test]
fn int_string_renders_decimals() {
    assert_eq!(geometry::display::int_string(0), "0");
    assert_eq!(geometry::display::int_string(-120), "-120");
    assert_eq!(geometry::display::int_string(987654321), "987654321");
}

#[test]
fn point_renders_in_parentheses() {
    let p = Point::from(Vector::from((3i64, -4i64)));
    assert_eq!(p.to_display_string(), "(3,-4,)");
}

#[test]
fn matrix_renders_one_row_per_line() {
    let m = Matrix::from((1i64, 2i64, 3i64, 4i64));
    assert_eq!(m.to_display_string(), "[[1,2,],\n [3,4,]]\n");
}

#[test]
fn single_row_matrix_rendering() {
    let m = Matrix::from([[7i64, -8]]);
    assert_eq!(m.to_display_string(), "[[7,-8,]]\n");
}
