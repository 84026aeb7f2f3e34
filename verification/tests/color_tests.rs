use tracer::color::Color;

fn fx(v: f64) -> i128 {
    (v * 1_000_000_000f64).round() as i128
}

fn col(r: f64, g: f64, b: f64) -> Color {
    Color::new(fx(r), fx(g), fx(b))
}

#[test]
fn colors_are_rgb_tuples() {
    let c = col(-0.1, 0.2, 1.3);
    assert_eq!(c.r, fx(-0.1));
    assert_eq!(c.g, fx(0.2));
    assert_eq!(c.b, fx(1.3));
}

#[test]
fn adding_colors() {
    let c1 = col(0.9, 0.6, 0.75);
    let c2 = col(0.7, 0.1, 0.25);
    assert!(c1.plus(&c2).approx_eq(&col(1.6, 0.7, 1.0)));
}

#[test]
fn subtracting_colors() {
    let c1 = col(0.9, 0.6, 0.75);
    let c2 = col(0.7, 0.1, 0.25);
    assert!(c1.minus(&c2).approx_eq(&col(0.2, 0.5, 0.5)));
}

#[test]
fn multiplying_a_color_by_a_scalar() {
    let c = col(0.2, 0.3, 0.4);
    assert!(c.times(fx(2.0)).approx_eq(&col(0.4, 0.6, 0.8)));
}

#[test]
fn multiplying_colors() {
    let c1 = col(1.0, 0.2, 0.4);
    let c2 = col(0.9, 1.0, 0.1);
    assert!(c1.times_col(&c2).approx_eq(&col(0.9, 0.2, 0.04)));
}
