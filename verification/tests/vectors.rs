use geometry::vector::Vector;

fn assert_components<const N: usize>(v: &Vector<N>, expected: &[i64]) {
    assert_eq!(v.components(), expected.to_vec());
}

#[test]
fn dot_concrete() {
    let a = Vector::from((1i64, 2i64, 3i64));
    let b = Vector::from((4i64, 5i64, 6i64));
    assert_eq!(a.dot(&b), 32);
}

#[test]
fn dot_is_commutative() {
    let a = Vector::from([3i64, -7, 11, 2]);
    let b = Vector::from([-5i64, 13, 1, 9]);
    assert_eq!(a.dot(&b), b.dot(&a));
}

#[test]
fn cross_concrete() {
    let a = Vector::from((1i64, 0i64, 0i64));
    let b = Vector::from((0i64, 1i64, 0i64));
    assert_components(&a.cross(b), &[0, 0, 1]);
}

#[test]
fn cross_is_antisymmetric() {
    let a = Vector::from((2i64, -3i64, 5i64));
    let b = Vector::from((7i64, 1i64, -4i64));
    let ab = a.cross(b);
    let ba_neg = b.cross(a).mul_scalar(-1);
    assert_eq!(ab.components(), ba_neg.components());
}

#[test]
fn cross_is_orthogonal_to_first_operand() {
    let a = Vector::from((2i64, -3i64, 5i64));
    let b = Vector::from((7i64, 1i64, -4i64));
    let c = a.cross(b);
    assert_eq!(a.dot(&c), 0);
    assert_eq!(b.dot(&c), 0);
}

#[test]
fn abs_is_squared_length() {
    let v = Vector::from((3i64, 4i64));
    assert_eq!(v.abs(), 25);
    assert_eq!(v.abs(), v.dot(&v));
}

#[test]
fn normalize_zero_vector_is_unchanged() {
    let mut v: Vector<5> = Vector::default();
    v.normalize();
    assert_components(&v, &[0, 0, 0, 0, 0]);
}

#[test]
fn normalize_divides_by_squared_length() {
    let mut v = Vector::from((3i64, 4i64));
    v.normalize();
    assert_components(&v, &[3 / 25, 4 / 25]);
}

#[test]
fn normalize_unit_vector_is_unchanged() {
    let mut v = Vector::from((0i64, -1i64, 0i64));
    v.normalize();
    assert_components(&v, &[0, -1, 0]);
}

#[test]
fn get_in_range() {
    let v = Vector::from([10i64, 20, 30]);
    assert_eq!(v.get(0), Some(10));
    assert_eq!(v.get(2), Some(30));
}

#[test]
fn get_out_of_range_is_none() {
    let v2: Vector<2> = Vector::default();
    let v3: Vector<3> = Vector::default();
    let v4: Vector<4> = Vector::default();
    assert_eq!(v2.get(2), None);
    assert_eq!(v3.get(3), None);
    assert_eq!(v4.get(4), None);
    assert_eq!(v4.get(usize::MAX), None);
}

#[test]
fn set_in_range() {
    let mut v = Vector::from([1i64, 2, 3]);
    assert!(v.set(1, 42));
    assert_components(&v, &[1, 42, 3]);
}

#[test]
fn set_out_of_range_is_rejected() {
    let mut v = Vector::from([1i64, 2, 3]);
    assert!(!v.set(3, 42));
    assert_components(&v, &[1, 2, 3]);
}

#[test]
fn broadcast_constructor() {
    let v: Vector<4> = Vector::from(7i64);
    assert_components(&v, &[7, 7, 7, 7]);
}

#[test]
fn tuple_constructors() {
    assert_components(&Vector::from((1i64, 2i64)), &[1, 2]);
    assert_components(&Vector::from((1i64, 2i64, 3i64)), &[1, 2, 3]);
    assert_components(&Vector::from((1i64, 2i64, 3i64, 4i64)), &[1, 2, 3, 4]);
}

#[test]
fn vector_add_sub() {
    let a = Vector::from((1i64, 2i64));
    let b = Vector::from((10i64, 20i64));
    assert_components(&a.add(b), &[11, 22]);
    assert_components(&b.sub(a), &[9, 18]);
}

#[test]
fn vector_add_assign_sub_assign() {
    let mut a = Vector::from((1i64, 2i64, 3i64));
    a.add_assign(Vector::from((4i64, 5i64, 6i64)));
    assert_components(&a, &[5, 7, 9]);
    a.sub_assign(Vector::from((5i64, 5i64, 5i64)));
    assert_components(&a, &[0, 2, 4]);
}

#[test]
fn zero_dimensional_vector() {
    let v: Vector<0> = Vector::default();
    let w: Vector<0> = Vector::default();
    assert_eq!(v.components(), Vec::<i64>::new());
    assert_eq!(v.get(0), None);
    assert_eq!(v.dot(&w), 0);
    assert_eq!(v.to_display_string(), "[]");
}

#[test]
fn vector_scalar_multiply() {
    let v = Vector::from((2i64, -3i64));
    assert_components(&v.mul_scalar(4), &[8, -12]);
    let mut w = Vector::from((1i64, 5i64));
    w.mul_scalar_assign(-2);
    assert_components(&w, &[-2, -10]);
}
