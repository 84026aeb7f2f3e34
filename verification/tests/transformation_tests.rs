use tracer::matrix::Matrix;
use tracer::transform::scaling;
use tracer::transform::translation;
use tracer::transformation::view_transform;
use tracer::tuple::Tuple;

fn fx(v: f64) -> i128 {
    (v * 1_000_000_000f64).round() as i128
}

fn pt(x: f64, y: f64, z: f64) -> Tuple {
    Tuple::point(fx(x), fx(y), fx(z))
}

fn vc(x: f64, y: f64, z: f64) -> Tuple {
    Tuple::vector(fx(x), fx(y), fx(z))
}

#[test]
fn the_transformation_matrix_for_the_default_orientation() {
    let from = pt(0.0, 0.0, 0.0);
    let to = pt(0.0, 0.0, -1.0);
    let up = vc(0.0, 1.0, 0.0);
    let t = view_transform(&from, &to, &up);
    assert!(Matrix::identity().approx_eq(&t));
}

#[test]
fn a_view_transformation_matrix_looking_in_positive_z_direction() {
    let from = pt(0.0, 0.0, 0.0);
    let to = pt(0.0, 0.0, 1.0);
    let up = vc(0.0, 1.0, 0.0);
    let t = view_transform(&from, &to, &up);
    assert!(scaling(fx(-1.0), fx(1.0), fx(-1.0)).approx_eq(&t));
}

#[test]
fn the_view_transformation_moves_the_world() {
    let from = pt(0.0, 0.0, 8.0);
    let to = pt(0.0, 0.0, 0.0);
    let up = vc(0.0, 1.0, 0.0);
    let t = view_transform(&from, &to, &up);
    assert!(translation(fx(0.0), fx(0.0), fx(-8.0)).approx_eq(&t));
}

#[test]
fn an_abitrary_view_transformation() {
    let from = pt(1.0, 3.0, 2.0);
    let to = pt(4.0, -2.0, 8.0);
    let up = vc(1.0, 1.0, 0.0);
    let t = view_transform(&from, &to, &up);
    let vals: [f64; 16] = [
        -0.50709, 0.50709, 0.67612, -2.36643,
        0.76772, 0.60609, 0.12122, -2.82843,
        -0.35857, 0.59761, -0.71714, 0.00000,
        0.00000, 0.00000, 0.00000, 1.00000,
    ];
    let mut scaled: Vec<i128> = Vec::new();
    for v in vals.iter() {
        scaled.push(fx(*v));
    }
    let expected = Matrix::new_with_values(4, 4, &scaled);
    assert!(expected.approx_eq(&t));
}
