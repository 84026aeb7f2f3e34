use tracer::fixed::EPSILON;
use tracer::intersection::Intersection;
use tracer::intersection::Intersections;
use tracer::shape::Sphere;
use tracer::tuple::Tuple;

fn fx(v: f64) -> i128 {
    (v * 1_000_000_000f64).round() as i128
}

fn aeq(a: i128, b: f64) -> bool {
    (a - fx(b)).abs() <= EPSILON
}

#[test]
fn an_itersection_encapsulates_t_and_object() {
    let s = Sphere::default_boxed();
    let t = fx(3.5);
    let i = Intersection::new(t, s);
    assert_eq!(t, i.t);
    assert!(s.shape_eq(&i.object));
}

#[test]
fn aggregating_intersections() {
    let s = Sphere::default_boxed();
    let t1 = fx(1.0);
    let t2 = fx(2.0);
    let i1 = Intersection::new(t1, s);
    let i2 = Intersection::new(t2, s);
    let xs = vec![i1, i2];
    assert_eq!(2, xs.len());
    assert_eq!(t1, xs[0].t);
    assert_eq!(t2, xs[1].t);
}

#[test]
fn the_hit_when_all_intersections_have_positive_t() {
    let s = Sphere::default_boxed();
    let i1 = Intersection::new(fx(1.0), s);
    let i2 = Intersection::new(fx(2.0), s);
    let xs = Intersections::new(vec![i1, i2]);
    let h = xs.hit().unwrap();
    assert!(h.equals(&Intersection::new(fx(1.0), s)));
}

#[test]
fn the_hit_when_some_intersections_have_negative_t() {
    let s = Sphere::default_boxed();
    let i1 = Intersection::new(fx(-1.0), s);
    let i2 = Intersection::new(fx(1.0), s);
    let xs = Intersections::new(vec![i1, i2]);
    let h = xs.hit().unwrap();
    assert!(h.equals(&Intersection::new(fx(1.0), s)));
}

#[test]
fn the_hit_when_all_intersections_have_negative_t() {
    let s = Sphere::default_boxed();
    let i1 = Intersection::new(fx(-2.0), s);
    let i2 = Intersection::new(fx(-1.0), s);
    let xs = Intersections::new(vec![i1, i2]);
    assert!(xs.hit().is_none());
}

#[test]
fn the_hit_is_always_the_lowest_nonnegative_intersection() {
    let s = Sphere::default_boxed();
    let i1 = Intersection::new(fx(5.0), s);
    let i2 = Intersection::new(fx(7.0), s);
    let i3 = Intersection::new(fx(-3.0), s);
    let i4 = Intersection::new(fx(2.0), s);
    let xs = Intersections::new(vec![i1, i2, i3, i4]);
    let h = xs.hit().unwrap();
    assert!(h.equals(&Intersection::new(fx(2.0), s)));
    assert!(aeq(h.t, 2.0));
}

#[test]
fn a_point_light_has_a_position_and_intensity() {
    let intensity = tracer::color::Color::white();
    let position = Tuple::point(0, 0, 0);
    let pl = tracer::light::PointLight::new(&position, &intensity);
    assert!(intensity.approx_eq(&pl.intensity));
    assert!(position.approx_eq(&pl.position));
}
