use tracer::fixed::EPSILON;
use tracer::tuple::Tuple;

fn fx(v: f64) -> i128 {
    (v * 1_000_000_000f64).round() as i128
}

fn pt(x: f64, y: f64, z: f64) -> Tuple {
    Tuple::point(fx(x), fx(y), fx(z))
}

fn vc(x: f64, y: f64, z: f64) -> Tuple {
    Tuple::vector(fx(x), fx(y), fx(z))
}

fn aeq(a: i128, b: f64) -> bool {
    (a - fx(b)).abs() <= EPSILON
}

#[test]
fn point_creates_a_point() {
    let p = pt(4.3, -4.2, 3.1);
    assert!(p.is_point());
    assert!(!p.is_vector());
    assert_eq!(p.x, fx(4.3));
    assert_eq!(p.y, fx(-4.2));
    assert_eq!(p.z, fx(3.1));
}

#[test]
fn vector_creates_a_vector() {
    let t = vc(4.0, -4.0, 3.0);
    assert!(t.is_vector());
    assert!(!t.is_point());
    assert_eq!(t.x, fx(4.0));
    assert_eq!(t.y, fx(-4.0));
    assert_eq!(t.z, fx(3.0));
}

#[test]
fn tuple_is_equal() {
    let t1 = vc(4.0, -4.0, 3.0);
    let t2 = vc(4.0, -4.0, 3.0);
    assert!(t1.approx_eq(&t2));
}

#[test]
fn tuple_is_different() {
    let t1 = vc(4.0, -4.0, 3.0);
    let t2 = vc(4.01, -4.0, 3.0);
    let t3 = vc(4.0, -4.01, 3.0);
    let t4 = vc(4.0, -4.0, 2.999);
    let p1 = pt(4.0, -4.0, 3.0);
    assert!(!t1.approx_eq(&t2));
    assert!(!t1.approx_eq(&t3));
    assert!(!t1.approx_eq(&t4));
    assert!(!t1.approx_eq(&p1));
}

#[test]
fn adding_a_vector_to_a_point() {
    let p = pt(3.0, -2.0, 5.0);
    let v = vc(-2.0, 3.0, 1.0);
    assert!(p.plus(&v).approx_eq(&pt(1.0, 1.0, 6.0)));
}

#[test]
fn adding_a_vector_to_a_vector() {
    let v1 = vc(3.0, -2.0, 5.0);
    let v2 = vc(-2.0, 3.0, 1.0);
    assert!(v1.plus(&v2).approx_eq(&vc(1.0, 1.0, 6.0)));
}

#[test]
fn subtracting_two_points() {
    let p1 = pt(3.0, 2.0, 1.0);
    let p2 = pt(5.0, 6.0, 7.0);
    assert!(p1.minus(&p2).approx_eq(&vc(-2.0, -4.0, -6.0)));
}

#[test]
fn subtracting_a_vector_from_a_point() {
    let p = pt(3.0, 2.0, 1.0);
    let v = vc(5.0, 6.0, 7.0);
    assert!(p.minus(&v).approx_eq(&pt(-2.0, -4.0, -6.0)));
}

#[test]
fn subtracting_a_vector_from_a_vector() {
    let v1 = vc(3.0, 2.0, 1.0);
    let v2 = vc(5.0, 6.0, 7.0);
    assert!(v1.minus(&v2).approx_eq(&vc(-2.0, -4.0, -6.0)));
}

#[test]
fn subtracting_a_vector_from_the_zero_vector() {
    let zero = vc(0.0, 0.0, 0.0);
    let v = vc(1.0, -2.0, 3.0);
    assert!(zero.minus(&v).approx_eq(&vc(-1.0, 2.0, -3.0)));
}

#[test]
fn negating_a_vector() {
    let v = vc(1.0, -2.0, 3.0);
    assert!(v.neg().approx_eq(&vc(-1.0, 2.0, -3.0)));
}

#[test]
fn multiplying_a_vector_by_a_scalar() {
    let v = vc(1.0, -2.0, 3.0);
    assert!(v.times(fx(3.5)).approx_eq(&vc(3.5, -7.0, 10.5)));
}

#[test]
fn multiplying_a_vector_by_a_fraction() {
    let v = vc(1.0, -2.0, 3.0);
    assert!(v.times(fx(0.5)).approx_eq(&vc(0.5, -1.0, 1.5)));
}

#[test]
fn dividing_a_vector_by_a_scalar() {
    let v = vc(1.0, -2.0, 3.0);
    assert!(v.div_by(fx(2.0)).approx_eq(&vc(0.5, -1.0, 1.5)));
}

#[test]
fn computing_magnitude_of_vector_1_0_0() {
    let v = vc(1.0, 0.0, 0.0);
    assert!(aeq(v.magnitude(), 1.0));
}

#[test]
fn computing_magnitude_of_vector_0_1_0() {
    let v = vc(0.0, 1.0, 0.0);
    assert!(aeq(v.magnitude(), 1.0));
}

#[test]
fn computing_magnitude_of_vector_0_0_1() {
    let v = vc(0.0, 0.0, 1.0);
    assert!(aeq(v.magnitude(), 1.0));
}

#[test]
fn computing_magnitude_of_vector_1_2_3() {
    let v = vc(1.0, 2.0, 3.0);
    assert!(aeq(v.magnitude(), 14f64.sqrt()));
}

#[test]
fn computing_magnitude_of_negative_vector_1_2_3() {
    let v = vc(-1.0, -2.0, -3.0);
    assert!(aeq(v.magnitude(), 14f64.sqrt()));
}

#[test]
fn normalize_vector_4_0_0() {
    let v = vc(4.0, 0.0, 0.0);
    assert!(v.normalize().approx_eq(&vc(1.0, 0.0, 0.0)));
}

#[test]
fn normalize_vector_1_2_3() {
    let v = vc(1.0, 2.0, 3.0);
    let divider = 14f64.sqrt();
    assert!(v.normalize().approx_eq(&vc(1.0 / divider, 2.0 / divider, 3.0 / divider)));
}

#[test]
fn magnitude_of_a_normalized_vector() {
    let v = vc(1.0, 2.0, 3.0);
    assert!(aeq(v.normalize().magnitude(), 1.0));
}

#[test]
fn dot_product_of_two_vectors() {
    let v1 = vc(1.0, 2.0, 3.0);
    let v2 = vc(2.0, 3.0, 4.0);
    assert!(aeq(Tuple::dot_product(&v1, &v2), 20.0));
}

#[test]
fn cross_product_of_two_vectors() {
    let v1 = vc(1.0, 2.0, 3.0);
    let v2 = vc(2.0, 3.0, 4.0);
    assert!(Tuple::cross_product(&v1, &v2).approx_eq(&vc(-1.0, 2.0, -1.0)));
    assert!(Tuple::cross_product(&v2, &v1).approx_eq(&vc(1.0, -2.0, 1.0)));
}

#[test]
fn reflecting_a_vector_approaching_at_45_degrees() {
    let v = vc(1.0, -1.0, 0.0);
    let n = vc(0.0, 1.0, 0.0);
    assert!(Tuple::reflect(&v, &n).approx_eq(&vc(1.0, 1.0, 0.0)));
}

#[test]
fn reflecting_a_vector_off_a_slanted_surface() {
    let v = vc(0.0, -1.0, 0.0);
    let s = 2f64.sqrt() / 2.0;
    let n = vc(s, s, 0.0);
    assert!(Tuple::reflect(&v, &n).approx_eq(&vc(1.0, 0.0, 0.0)));
}
