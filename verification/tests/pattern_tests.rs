use tracer::color::Color;
use tracer::matrix::Matrix;
use tracer::pattern::CheckersPattern;
use tracer::pattern::GradientPattern;
use tracer::pattern::PatternType;
use tracer::pattern::RingPattern;
use tracer::pattern::StripePattern;
use tracer::pattern::TestPattern;
use tracer::shape::Sphere;
use tracer::transform::scaling;
use tracer::transform::translation;
use tracer::tuple::Tuple;

fn fx(v: f64) -> i128 {
    (v * 1_000_000_000f64).round() as i128
}

fn pt(x: f64, y: f64, z: f64) -> Tuple {
    Tuple::point(fx(x), fx(y), fx(z))
}

fn white() -> Color {
    Color::white()
}

fn black() -> Color {
    Color::black()
}

fn col(r: f64, g: f64, b: f64) -> Color {
    Color::new(fx(r), fx(g), fx(b))
}

#[test]
fn create_a_test_pattern() {
    let p = TestPattern::new(None);
    assert!(p.transform.approx_eq(&Matrix::identity()));
}

#[test]
fn a_test_pattern_with_a_transformation() {
    let t = translation(fx(1.0), fx(2.0), fx(3.0));
    let p = TestPattern::new(Some(t));
    assert!(p.transform.approx_eq(&t));
}

#[test]
fn a_test_pattern_with_an_object_transformation() {
    let p = TestPattern::new(None);
    let s = Sphere::new_boxed(Some(scaling(fx(2.0), fx(2.0), fx(2.0))), None);
    let c = PatternType::Test(p).pattern_at_shape(&s, &pt(2.0, 3.0, 4.0));
    assert!(col(1.0, 1.5, 2.0).approx_eq(&c));
}

#[test]
fn a_test_pattern_with_a_pattern_transformation() {
    let p = TestPattern::new(Some(scaling(fx(2.0), fx(2.0), fx(2.0))));
    let s = Sphere::new_boxed(None, None);
    let c = PatternType::Test(p).pattern_at_shape(&s, &pt(2.0, 3.0, 4.0));
    assert!(col(1.0, 1.5, 2.0).approx_eq(&c));
}

#[test]
fn a_test_pattern_with_both_an_object_and_a_pattern_transformation() {
    let p = TestPattern::new(Some(translation(fx(0.5), fx(1.0), fx(1.5))));
    let s = Sphere::new_boxed(Some(scaling(fx(2.0), fx(2.0), fx(2.0))), None);
    let c = PatternType::Test(p).pattern_at_shape(&s, &pt(2.5, 3.0, 3.5));
    assert!(col(0.75, 0.5, 0.25).approx_eq(&c));
}

#[test]
fn create_a_stripe_pattern() {
    let p = StripePattern::new(white(), black(), None);
    assert!(p.first.approx_eq(&white()));
    assert!(p.second.approx_eq(&black()));
}

#[test]
fn create_a_stripe_pattern_with_a_transformation() {
    let t = scaling(fx(2.0), fx(2.0), fx(2.0));
    let p = StripePattern::new(white(), black(), Some(t));
    assert!(p.transform.approx_eq(&t));
}

#[test]
fn a_stripe_pattern_is_constant_in_y() {
    let p = StripePattern::new(white(), black(), None);
    assert!(white().approx_eq(&p.pattern_at(&pt(0.0, 0.0, 0.0))));
    assert!(white().approx_eq(&p.pattern_at(&pt(0.0, 1.0, 0.0))));
    assert!(white().approx_eq(&p.pattern_at(&pt(0.0, 2.0, 0.0))));
}

#[test]
fn a_stripe_pattern_is_constant_in_z() {
    let p = StripePattern::new(white(), black(), None);
    assert!(white().approx_eq(&p.pattern_at(&pt(0.0, 0.0, 0.0))));
    assert!(white().approx_eq(&p.pattern_at(&pt(0.0, 0.0, 1.0))));
    assert!(white().approx_eq(&p.pattern_at(&pt(0.0, 0.0, 2.0))));
}

#[test]
fn a_stripe_pattern_is_alternates_in_x() {
    let p = StripePattern::new(white(), black(), None);
    assert!(white().approx_eq(&p.pattern_at(&pt(0.0, 0.0, 0.0))));
    assert!(white().approx_eq(&p.pattern_at(&pt(0.9, 0.0, 0.0))));
    assert!(black().approx_eq(&p.pattern_at(&pt(1.0, 0.0, 0.0))));
    assert!(black().approx_eq(&p.pattern_at(&pt(-0.1, 0.0, 0.0))));
    assert!(black().approx_eq(&p.pattern_at(&pt(-1.0, 0.0, 0.0))));
    assert!(white().approx_eq(&p.pattern_at(&pt(-1.1, 0.0, 0.0))));
}

#[test]
fn stripes_with_an_object_transformation() {
    let p = StripePattern::new(white(), black(), None);
    let s = Sphere::new_boxed(Some(scaling(fx(2.0), fx(2.0), fx(2.0))), None);
    let c = PatternType::Stripe(p).pattern_at_shape(&s, &pt(1.5, 0.0, 0.0));
    assert!(white().approx_eq(&c));
}

#[test]
fn stripes_with_a_pattern_transformation() {
    let p = StripePattern::new(white(), black(), Some(scaling(fx(2.0), fx(2.0), fx(2.0))));
    let s = Sphere::new_boxed(None, None);
    let c = PatternType::Stripe(p).pattern_at_shape(&s, &pt(1.5, 0.0, 0.0));
    assert!(white().approx_eq(&c));
}

#[test]
fn stripes_with_a_both_an_object_and_a_pattern_transformation() {
    let p = StripePattern::new(white(), black(), Some(translation(fx(0.5), fx(0.0), fx(0.0))));
    let s = Sphere::new_boxed(Some(scaling(fx(2.0), fx(2.0), fx(2.0))), None);
    let c = PatternType::Stripe(p).pattern_at_shape(&s, &pt(1.5, 0.0, 0.0));
    assert!(white().approx_eq(&c));
}

#[test]
fn gradient_linearly_interpolates_between_colors() {
    let p = GradientPattern::new(white(), black(), None);
    assert!(white().approx_eq(&p.pattern_at(&pt(0.0, 0.0, 0.0))));
    assert!(col(0.75, 0.75, 0.75).approx_eq(&p.pattern_at(&pt(0.25, 0.0, 0.0))));
    assert!(col(0.5, 0.5, 0.5).approx_eq(&p.pattern_at(&pt(0.5, 0.0, 0.0))));
    assert!(col(0.25, 0.25, 0.25).approx_eq(&p.pattern_at(&pt(0.75, 0.0, 0.0))));
}

#[test]
fn ring_extend_in_x_and_z() {
    let p = RingPattern::new(white(), black(), None);
    assert!(white().approx_eq(&p.pattern_at(&pt(0.0, 0.0, 0.0))));
    assert!(black().approx_eq(&p.pattern_at(&pt(1.0, 0.0, 0.0))));
    assert!(black().approx_eq(&p.pattern_at(&pt(0.0, 0.0, 1.0))));
    assert!(black().approx_eq(&p.pattern_at(&pt(0.708, 0.0, 0.708))));
}

#[test]
fn checkers_should_repeat_in_x() {
    let p = CheckersPattern::new(white(), black(), None);
    assert!(white().approx_eq(&p.pattern_at(&pt(0.0, 0.0, 0.0))));
    assert!(white().approx_eq(&p.pattern_at(&pt(0.99, 0.0, 0.0))));
    assert!(black().approx_eq(&p.pattern_at(&pt(1.01, 0.0, 0.0))));
}

#[test]
fn checkers_should_repeat_in_y() {
    let p = CheckersPattern::new(white(), black(), None);
    assert!(white().approx_eq(&p.pattern_at(&pt(0.0, 0.0, 0.0))));
    assert!(white().approx_eq(&p.pattern_at(&pt(0.0, 0.99, 0.0))));
    assert!(black().approx_eq(&p.pattern_at(&pt(0.0, 1.01, 0.0))));
}

#[test]
fn checkers_should_repeat_in_z() {
    let p = CheckersPattern::new(white(), black(), None);
    assert!(white().approx_eq(&p.pattern_at(&pt(0.0, 0.0, 0.0))));
    assert!(white().approx_eq(&p.pattern_at(&pt(0.0, 0.0, 0.99))));
    assert!(black().approx_eq(&p.pattern_at(&pt(0.0, 0.0, 1.01))));
}
