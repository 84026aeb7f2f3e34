use tracer::comps::Comps;
use tracer::fixed::EPSILON;
use tracer::intersection::Intersection;
use tracer::ray::Ray;
use tracer::shape::Plane;
use tracer::shape::Sphere;
use tracer::transform::translation;
use tracer::tuple::Tuple;

fn fx(v: f64) -> i128 {
    (v * 1_000_000_000f64).round() as i128
}

fn pt(x: f64, y: f64, z: f64) -> Tuple {
    Tuple::point(fx(x), fx(y), fx(z))
}

fn vc(x: f64, y: f64, z: f64) -> Tuple {
    Tuple::vector(fx(x), fx(y), fx(z))
}

#[test]
fn precomputing_the_state_of_an_intersection() {
    let r = Ray::new(&pt(0.0, 0.0, -5.0), &vc(0.0, 0.0, 1.0));
    let s = Sphere::default_boxed();
    let i = Intersection::new(fx(4.0), s);
    let comps = Comps::prepare_computations(&i, &r, None);
    assert_eq!(i.t, comps.t);
    assert!(i.object.shape_eq(&comps.object));
    assert!(pt(0.0, 0.0, -1.0).approx_eq(&comps.point));
    assert!(vc(0.0, 0.0, -1.0).approx_eq(&comps.eyev));
    assert!(vc(0.0, 0.0, -1.0).approx_eq(&comps.normalv));
}

#[test]
fn the_hit_when_an_intersection_occurs_on_the_outside() {
    let r = Ray::new(&pt(0.0, 0.0, -5.0), &vc(0.0, 0.0, 1.0));
    let s = Sphere::default_boxed();
    let i = Intersection::new(fx(4.0), s);
    let comps = Comps::prepare_computations(&i, &r, None);
    assert_eq!(false, comps.inside);
}

#[test]
fn the_hit_when_an_intersection_occurs_on_the_inside() {
    let r = Ray::new(&pt(0.0, 0.0, 0.0), &vc(0.0, 0.0, 1.0));
    let s = Sphere::default_boxed();
    let i = Intersection::new(fx(1.0), s);
    let comps = Comps::prepare_computations(&i, &r, None);
    assert_eq!(true, comps.inside);
    assert!(pt(0.0, 0.0, 1.0).approx_eq(&comps.point));
    assert!(vc(0.0, 0.0, -1.0).approx_eq(&comps.eyev));
    assert!(vc(0.0, 0.0, -1.0).approx_eq(&comps.normalv));
}

#[test]
fn the_hit_should_offset_the_point() {
    let r = Ray::new(&pt(0.0, 0.0, -5.0), &vc(0.0, 0.0, 1.0));
    let s = Sphere::new_boxed(Some(translation(fx(0.0), fx(0.0), fx(1.0))), None);
    let i = Intersection::new(fx(5.0), s);
    let comps = Comps::prepare_computations(&i, &r, None);
    assert!(comps.over_point.z < -EPSILON / 2);
    assert!(comps.point.z > comps.over_point.z);
}

#[test]
fn precomputing_the_reflection_vector() {
    let v = 2f64.sqrt() / 2.0;
    let r = Ray::new(&pt(0.0, 1.0, -1.0), &vc(0.0, -v, v));
    let s = Plane::default_boxed();
    let i = Intersection::new(fx(2f64.sqrt()), s);
    let comps = Comps::prepare_computations(&i, &r, None);
    assert!(comps.reflectv.approx_eq(&vc(0.0, v, v)));
}
