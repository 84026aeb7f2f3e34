use tracer::color::Color;
use tracer::comps::Comps;
use tracer::fixed::EPSILON;
use tracer::intersection::Intersection;
use tracer::intersection::Intersections;
use tracer::light::PointLight;
use tracer::material::Material;
use tracer::matrix::Matrix;
use tracer::pattern::PatternType;
use tracer::pattern::StripePattern;
use tracer::ray::Ray;
use tracer::shape::Shape;
use tracer::shape::Sphere;
use tracer::transform::scaling;
use tracer::transform::translation;
use tracer::tuple::Tuple;

fn fx(v: f64) -> i128 {
    (v * 1_000_000_000f64).round() as i128
}

fn pt(x: f64, y: f64, z: f64) -> Tuple {
    Tuple::point(fx(x), fx(y), fx(z))
}

fn vc(x: f64, y: f64, z: f64) -> Tuple {
    Tuple::vector(fx(x), fx(y), fx(z))
}

fn col(r: f64, g: f64, b: f64) -> Color {
    Color::new(fx(r), fx(g), fx(b))
}

fn glass_sphere(transform: Option<Matrix>, refractive_index: Option<f64>) -> Shape {
    let ri = match refractive_index {
        Some(v) => fx(v),
        None => fx(1.5),
    };
    Sphere::new_boxed(
        transform,
        Some(Material::new(
            Some(col(1.0, 0.2, 1.0)),
            None,
            None,
            None,
            None,
            None,
            Some(fx(0.9)),
            Some(fx(1.0)),
            Some(ri),
        )),
    )
}

#[test]
fn the_default_material() {
    let m = Material::default();
    assert!(Color::white().approx_eq(&m.color));
    assert!(m.pattern.is_none());
    assert_eq!(fx(0.1), m.ambient);
    assert_eq!(fx(0.9), m.diffuse);
    assert_eq!(fx(0.9), m.specular);
    assert_eq!(fx(200.0), m.shininess);
    assert_eq!(fx(0.0), m.reflective);
    assert_eq!(fx(0.0), m.transparency);
    assert_eq!(fx(1.0), m.refractive_index);
}

#[test]
fn lighting_with_the_eye_between_the_light_and_the_surface() {
    let m = Material::default();
    let position = pt(0.0, 0.0, 0.0);
    let eyev = vc(0.0, 0.0, -1.0);
    let normalv = vc(0.0, 0.0, -1.0);
    let light = PointLight::new(&pt(0.0, 0.0, -10.0), &Color::white());
    let s = Sphere::default_boxed();
    let r = m.lighting(&s, &light, &position, &eyev, &normalv, false);
    assert!(col(1.9, 1.9, 1.9).approx_eq(&r));
}

#[test]
fn lighting_with_the_eye_between_the_light_and_the_surface_eye_offset_45_degrees() {
    let m = Material::default();
    let position = pt(0.0, 0.0, 0.0);
    let v = 2f64.sqrt() / 2.0;
    let eyev = vc(0.0, v, -v);
    let normalv = vc(0.0, 0.0, -1.0);
    let light = PointLight::new(&pt(0.0, 0.0, -10.0), &Color::white());
    let s = Sphere::default_boxed();
    let r = m.lighting(&s, &light, &position, &eyev, &normalv, false);
    assert!(Color::white().approx_eq(&r));
}

#[test]
fn lighting_with_the_eye_opposite_the_surface_light_offset_45_degrees() {
    let m = Material::default();
    let position = pt(0.0, 0.0, 0.0);
    let eyev = vc(0.0, 0.0, -1.0);
    let normalv = vc(0.0, 0.0, -1.0);
    let light = PointLight::new(&pt(0.0, 10.0, -10.0), &Color::white());
    let s = Sphere::default_boxed();
    let r = m.lighting(&s, &light, &position, &eyev, &normalv, false);
    assert!(col(0.7364, 0.7364, 0.7364).approx_eq(&r));
}

#[test]
fn lighting_with_the_eye_in_the_path_of_the_reflection_vector() {
    let m = Material::default();
    let position = pt(0.0, 0.0, 0.0);
    let v = 2f64.sqrt() / 2.0;
    let eyev = vc(0.0, -v, -v);
    let normalv = vc(0.0, 0.0, -1.0);
    let light = PointLight::new(&pt(0.0, 10.0, -10.0), &Color::white());
    let s = Sphere::default_boxed();
    let r = m.lighting(&s, &light, &position, &eyev, &normalv, false);
    assert!(col(1.6364, 1.6364, 1.6364).approx_eq(&r));
}

#[test]
fn lighting_with_the_light_behind_the_surface() {
    let m = Material::default();
    let position = pt(0.0, 0.0, 0.0);
    let eyev = vc(0.0, 0.0, -1.0);
    let normalv = vc(0.0, 0.0, -1.0);
    let light = PointLight::new(&pt(0.0, 0.0, 10.0), &Color::white());
    let s = Sphere::default_boxed();
    let r = m.lighting(&s, &light, &position, &eyev, &normalv, false);
    assert!(col(0.1, 0.1, 0.1).approx_eq(&r));
}

#[test]
fn lighting_with_the_surface_in_shadow() {
    let m = Material::default();
    let position = pt(0.0, 0.0, 0.0);
    let eyev = vc(0.0, 0.0, -1.0);
    let normalv = vc(0.0, 0.0, -1.0);
    let light = PointLight::new(&pt(0.0, 0.0, -10.0), &Color::white());
    let s = Sphere::default_boxed();
    let r = m.lighting(&s, &light, &position, &eyev, &normalv, true);
    assert!(col(0.1, 0.1, 0.1).approx_eq(&r));
}

#[test]
fn lighting_with_a_pattern_applied() {
    let stripe = StripePattern::new(Color::white(), Color::black(), None);
    let m = Material::new(
        None,
        Some(PatternType::Stripe(stripe)),
        Some(fx(1.0)),
        Some(fx(0.0)),
        Some(fx(0.0)),
        None,
        None,
        None,
        None,
    );
    let eyev = vc(0.0, 0.0, -1.0);
    let normalv = vc(0.0, 0.0, -1.0);
    let light = PointLight::new(&pt(0.0, 0.0, -10.0), &Color::white());
    let s = Sphere::default_boxed();
    let c1 = m.lighting(&s, &light, &pt(0.9, 0.0, 0.0), &eyev, &normalv, true);
    let c2 = m.lighting(&s, &light, &pt(1.1, 0.0, 0.0), &eyev, &normalv, true);
    assert!(Color::white().approx_eq(&c1));
    assert!(Color::black().approx_eq(&c2));
}

#[test]
fn finding_n1_and_n2_at_various_intersections() {
    let s1 = glass_sphere(Some(scaling(fx(2.0), fx(2.0), fx(2.0))), Some(1.5));
    let s2 = glass_sphere(Some(translation(fx(0.0), fx(0.0), fx(-0.25))), Some(2.0));
    let s3 = glass_sphere(Some(translation(fx(0.0), fx(0.0), fx(0.25))), Some(2.5));

    let r = Ray::new(&pt(0.0, 0.0, -4.0), &vc(0.0, 0.0, 1.0));

    let i0 = Intersection::new(fx(2.0), s1);
    let i1 = Intersection::new(fx(2.75), s2);
    let i2 = Intersection::new(fx(3.25), s3);
    let i3 = Intersection::new(fx(4.75), s2);
    let i4 = Intersection::new(fx(5.25), s3);
    let i5 = Intersection::new(fx(6.0), s1);

    let all = vec![i0, i1, i2, i3, i4, i5];
    let expected = [
        (1.0, 1.5),
        (1.5, 2.0),
        (2.0, 2.5),
        (2.5, 2.5),
        (2.5, 1.5),
        (1.5, 1.0),
    ];
    let mut k = 0;
    while k < 6 {
        let xs = Intersections::new(all.clone());
        let comps = Comps::prepare_computations(&all[k], &r, Some(xs));
        assert_eq!(comps.n1, fx(expected[k].0));
        assert_eq!(comps.n2, fx(expected[k].1));
        k += 1;
    }
}

#[test]
fn the_under_point_is_offset_below_the_surface() {
    let r = Ray::new(&pt(0.0, 0.0, -5.0), &vc(0.0, 0.0, 1.0));
    let s = glass_sphere(Some(translation(fx(0.0), fx(0.0), fx(1.0))), None);
    let i = Intersection::new(fx(5.0), s);
    let xs = Intersections::new(vec![i]);
    let comps = Comps::prepare_computations(&i, &r, Some(xs));
    assert!(comps.under_point.z > EPSILON / 2);
    assert!(comps.point.z < comps.under_point.z);
}
