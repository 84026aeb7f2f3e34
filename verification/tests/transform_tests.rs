use std::f64::consts::FRAC_PI_2;
use std::f64::consts::FRAC_PI_4;
use tracer::matrix::Matrix;
use tracer::transform::rotation_x;
use tracer::transform::rotation_y;
use tracer::transform::rotation_z;
use tracer::transform::scaling;
use tracer::transform::shearing;
use tracer::transform::transforms;
use tracer::transform::translation;
use tracer::tuple::Tuple;

fn fx(v: f64) -> i128 {
    (v * 1_000_000_000f64).round() as i128
}

fn pt(x: f64, y: f64, z: f64) -> Tuple {
    Tuple::point(fx(x), fx(y), fx(z))
}

fn vc(x: f64, y: f64, z: f64) -> Tuple {
    Tuple::vector(fx(x), fx(y), fx(z))
}

fn rot_x(r: f64) -> Matrix {
    rotation_x(fx(r.cos()), fx(r.sin()))
}

fn rot_y(r: f64) -> Matrix {
    rotation_y(fx(r.cos()), fx(r.sin()))
}

fn rot_z(r: f64) -> Matrix {
    rotation_z(fx(r.cos()), fx(r.sin()))
}

fn tr(x: f64, y: f64, z: f64) -> Matrix {
    translation(fx(x), fx(y), fx(z))
}

fn sc(x: f64, y: f64, z: f64) -> Matrix {
    scaling(fx(x), fx(y), fx(z))
}

#[test]
fn multiplying_by_a_translation_matrix() {
    let t = tr(5.0, -3.0, 2.0);
    let p = pt(-3.0, 4.0, 5.0);
    assert!(pt(2.0, 1.0, 7.0).approx_eq(&t.times_tuple(&p)));
}

#[test]
fn multiplying_by_the_inverse_of_a_translation_matrix() {
    let t = tr(5.0, -3.0, 2.0);
    let inverse = t.inverse();
    let p = pt(-3.0, 4.0, 5.0);
    assert!(pt(-8.0, 7.0, 3.0).approx_eq(&inverse.times_tuple(&p)));
}

#[test]
fn translation_does_not_affect_vectors() {
    let t = tr(5.0, -3.0, 2.0);
    let v = vc(-3.0, 4.0, 5.0);
    assert!(v.approx_eq(&t.times_tuple(&v)));
}

#[test]
fn a_scaling_matrix_applied_to_a_point() {
    let s = sc(2.0, 3.0, 4.0);
    let p = pt(-4.0, 6.0, 8.0);
    assert!(pt(-8.0, 18.0, 32.0).approx_eq(&s.times_tuple(&p)));
}

#[test]
fn a_scaling_matrix_applied_to_a_vector() {
    let s = sc(2.0, 3.0, 4.0);
    let v = vc(-4.0, 6.0, 8.0);
    assert!(vc(-8.0, 18.0, 32.0).approx_eq(&s.times_tuple(&v)));
}

#[test]
fn multiplying_by_the_inverse_of_a_scaling_matrix() {
    let s = sc(2.0, 3.0, 4.0);
    let inv = s.inverse();
    let v = vc(-4.0, 6.0, 8.0);
    assert!(vc(-2.0, 2.0, 2.0).approx_eq(&inv.times_tuple(&v)));
}

#[test]
fn reflexion_is_scaling_by_a_negative_value() {
    let s = sc(-1.0, 1.0, 1.0);
    let p = pt(2.0, 3.0, 4.0);
    assert!(pt(-2.0, 3.0, 4.0).approx_eq(&s.times_tuple(&p)));
}

#[test]
fn rotating_a_point_around_the_x_axis() {
    let p = pt(0.0, 1.0, 0.0);
    let r_half = rot_x(FRAC_PI_4);
    let r_full = rot_x(FRAC_PI_2);
    let s = 2f64.sqrt() / 2.0;
    assert!(pt(0.0, s, s).approx_eq(&r_half.times_tuple(&p)));
    assert!(pt(0.0, 0.0, 1.0).approx_eq(&r_full.times_tuple(&p)));
}

#[test]
fn the_inverse_of_an_x_rotation_rotates_in_the_opposite_direction() {
    let p = pt(0.0, 1.0, 0.0);
    let r_half = rot_x(FRAC_PI_4);
    let inv = r_half.inverse();
    let s = 2f64.sqrt() / 2.0;
    assert!(pt(0.0, s, -s).approx_eq(&inv.times_tuple(&p)));
}

#[test]
fn rotating_a_point_around_the_y_axis() {
    let p = pt(0.0, 0.0, 1.0);
    let r_half = rot_y(FRAC_PI_4);
    let r_full = rot_y(FRAC_PI_2);
    let s = 2f64.sqrt() / 2.0;
    assert!(pt(s, 0.0, s).approx_eq(&r_half.times_tuple(&p)));
    assert!(pt(1.0, 0.0, 0.0).approx_eq(&r_full.times_tuple(&p)));
}

#[test]
fn rotating_a_point_around_the_z_axis() {
    let p = pt(0.0, 1.0, 0.0);
    let r_half = rot_z(FRAC_PI_4);
    let r_full = rot_z(FRAC_PI_2);
    let s = 2f64.sqrt() / 2.0;
    assert!(pt(-s, s, 0.0).approx_eq(&r_half.times_tuple(&p)));
    assert!(pt(-1.0, 0.0, 0.0).approx_eq(&r_full.times_tuple(&p)));
}

#[test]
fn a_shearing_transformation_moves_x_in_proportion_to_y() {
    let s = shearing(fx(1.0), 0, 0, 0, 0, 0);
    let p = pt(2.0, 3.0, 4.0);
    assert!(pt(5.0, 3.0, 4.0).approx_eq(&s.times_tuple(&p)));
}

#[test]
fn a_shearing_transformation_moves_x_in_proportion_to_z() {
    let s = shearing(0, fx(1.0), 0, 0, 0, 0);
    let p = pt(2.0, 3.0, 4.0);
    assert!(pt(6.0, 3.0, 4.0).approx_eq(&s.times_tuple(&p)));
}

#[test]
fn a_shearing_transformation_moves_y_in_proportion_to_x() {
    let s = shearing(0, 0, fx(1.0), 0, 0, 0);
    let p = pt(2.0, 3.0, 4.0);
    assert!(pt(2.0, 5.0, 4.0).approx_eq(&s.times_tuple(&p)));
}

#[test]
fn a_shearing_transformation_moves_y_in_proportion_to_z() {
    let s = shearing(0, 0, 0, fx(1.0), 0, 0);
    let p = pt(2.0, 3.0, 4.0);
    assert!(pt(2.0, 7.0, 4.0).approx_eq(&s.times_tuple(&p)));
}

#[test]
fn a_shearing_transformation_moves_z_in_proportion_to_x() {
    let s = shearing(0, 0, 0, 0, fx(1.0), 0);
    let p = pt(2.0, 3.0, 4.0);
    assert!(pt(2.0, 3.0, 6.0).approx_eq(&s.times_tuple(&p)));
}

#[test]
fn a_shearing_transformation_moves_z_in_proportion_to_y() {
    let s = shearing(0, 0, 0, 0, 0, fx(1.0));
    let p = pt(2.0, 3.0, 4.0);
    assert!(pt(2.0, 3.0, 7.0).approx_eq(&s.times_tuple(&p)));
}

#[test]
fn individual_transformations_are_applied_in_sequence() {
    let p = pt(1.0, 0.0, 1.0);
    let r = rot_x(FRAC_PI_2);
    let s = sc(5.0, 5.0, 5.0);
    let t = tr(10.0, 5.0, 7.0);

    let p2 = r.times_tuple(&p);
    assert!(pt(1.0, -1.0, 0.0).approx_eq(&p2));

    let p3 = s.times_tuple(&p2);
    assert!(pt(5.0, -5.0, 0.0).approx_eq(&p3));

    let p4 = t.times_tuple(&p3);
    assert!(pt(15.0, 0.0, 7.0).approx_eq(&p4));
}

#[test]
fn chained_transformations_are_applied_in_reverse_order() {
    let p = pt(1.0, 0.0, 1.0);
    let r = rot_x(FRAC_PI_2);
    let s = sc(5.0, 5.0, 5.0);
    let t = tr(10.0, 5.0, 7.0);

    let transform = t.times(&s).times(&r);
    let result = pt(15.0, 0.0, 7.0);
    assert!(result.approx_eq(&transform.times_tuple(&p)));

    let list: Vec<Matrix> = vec![r, s, t];
    assert!(result.approx_eq(&transforms(&list).times_tuple(&p)));
}
