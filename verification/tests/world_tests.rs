use tracer::color::Color;
use tracer::comps::Comps;
use tracer::fixed::EPSILON;
use tracer::intersection::Intersection;
use tracer::intersection::Intersections;
use tracer::light::PointLight;
use tracer::material::Material;
use tracer::pattern::PatternType;
use tracer::pattern::TestPattern;
use tracer::ray::Ray;
use tracer::shape::Plane;
use tracer::shape::Shape;
use tracer::shape::Sphere;
use tracer::transform::scaling;
use tracer::transform::translation;
use tracer::tuple::Tuple;
use tracer::world::World;
use tracer::world::schlick;

fn fx(v: f64) -> i128 {
    (v * 1_000_000_000f64).round() as i128
}

fn pt(x: f64, y: f64, z: f64) -> Tuple {
    Tuple::point(fx(x), fx(y), fx(z))
}

fn vc(x: f64, y: f64, z: f64) -> Tuple {
    Tuple::vector(fx(x), fx(y), fx(z))
}

fn col(r: f64, g: f64, b: f64) -> Color {
    Color::new(fx(r), fx(g), fx(b))
}

fn aeq(a: i128, b: f64) -> bool {
    (a - fx(b)).abs() <= EPSILON
}

fn default_material() -> Material {
    Material::new(
        Some(col(0.8, 1.0, 0.6)),
        None,
        None,
        Some(fx(0.7)),
        Some(fx(0.2)),
        None,
        None,
        None,
        None,
    )
}

fn default_world() -> World {
    let light = PointLight::new(&pt(-10.0, 10.0, -10.0), &Color::white());
    let s1 = Sphere::new_boxed(None, Some(default_material()));
    let s2 = Sphere::new_boxed(Some(scaling(fx(0.5), fx(0.5), fx(0.5))), None);
    World::new(Some(light), vec![s1, s2])
}

#[test]
fn creating_a_world() {
    let w = World::new(None, vec![]);
    assert!(w.light.is_none());
}

#[test]
fn the_default_world() {
    let light = PointLight::new(&pt(-10.0, 10.0, -10.0), &Color::white());
    let s1 = Sphere::new_boxed(None, Some(default_material()));
    let s2 = Sphere::new_boxed(Some(scaling(fx(0.5), fx(0.5), fx(0.5))), None);
    let w = default_world();
    let wl = w.light.unwrap();
    assert!(light.position.approx_eq(&wl.position));
    assert!(light.intensity.approx_eq(&wl.intensity));
    assert!(w.shapes[0].shape_eq(&s1));
    assert!(w.shapes[1].shape_eq(&s2));
}

#[test]
fn intersect_a_world_with_a_ray() {
    let w = default_world();
    let r = Ray::new(&pt(0.0, 0.0, -5.0), &vc(0.0, 0.0, 1.0));
    let xs = w.intersect(&r);
    assert_eq!(4, xs.len());
    assert!(aeq(xs.get(0).t, 4.0));
    assert!(aeq(xs.get(1).t, 4.5));
    assert!(aeq(xs.get(2).t, 5.5));
    assert!(aeq(xs.get(3).t, 6.0));
}

#[test]
fn shading_an_intersection() {
    let w = default_world();
    let r = Ray::new(&pt(0.0, 0.0, -5.0), &vc(0.0, 0.0, 1.0));
    let s = w.shapes[0];
    let i = Intersection::new(fx(4.0), s);
    let comps = Comps::prepare_computations(&i, &r, None);
    let c = w.shade_hit(&comps, 1);
    assert!(col(0.38066, 0.47583, 0.2855).approx_eq(&c));
}

#[test]
fn shading_an_intersection_from_the_inside() {
    let light = PointLight::new(&pt(0.0, 0.25, 0.0), &Color::white());
    let base = default_world();
    let w = World::new(Some(light), base.shapes);
    let r = Ray::new(&pt(0.0, 0.0, 0.0), &vc(0.0, 0.0, 1.0));
    let s = w.shapes[1];
    let i = Intersection::new(fx(0.5), s);
    let comps = Comps::prepare_computations(&i, &r, None);
    let c = w.shade_hit(&comps, 1);
    assert!(col(0.90498, 0.90498, 0.90498).approx_eq(&c));
}

#[test]
fn shade_hit_is_given_an_intersection_in_shadow() {
    let light = PointLight::new(&pt(0.0, 0.0, -10.0), &Color::white());
    let s1 = Sphere::default_boxed();
    let s2 = Sphere::new_boxed(Some(translation(fx(0.0), fx(0.0), fx(10.0))), None);
    let w = World::new(Some(light), vec![s1, s2]);
    let r = Ray::new(&pt(0.0, 0.0, 5.0), &vc(0.0, 0.0, 1.0));
    let i = Intersection::new(fx(4.0), s2);
    let comps = Comps::prepare_computations(&i, &r, None);
    let c = w.shade_hit(&comps, 1);
    assert!(col(0.1, 0.1, 0.1).approx_eq(&c));
}

#[test]
fn the_color_when_a_ray_misses() {
    let w = default_world();
    let r = Ray::new(&pt(0.0, 0.0, -5.0), &vc(0.0, 1.0, 0.0));
    let c = w.color_at(&r, 1);
    assert!(Color::black().approx_eq(&c));
}

#[test]
fn the_color_when_a_ray_hits() {
    let w = default_world();
    let r = Ray::new(&pt(0.0, 0.0, -5.0), &vc(0.0, 0.0, 1.0));
    let c = w.color_at(&r, 1);
    assert!(col(0.38066, 0.47583, 0.2855).approx_eq(&c));
}

#[test]
fn the_color_with_an_intersection_behind_the_ray() {
    let light = PointLight::new(&pt(-10.0, 10.0, -10.0), &Color::white());
    let material = Material::new(
        Some(col(0.8, 1.0, 0.6)),
        None,
        Some(fx(1.0)),
        Some(fx(0.7)),
        Some(fx(0.2)),
        None,
        None,
        Some(fx(0.0)),
        Some(fx(1.0)),
    );
    let s1 = Sphere::new_boxed(None, Some(material));
    let mut s2 = Sphere::new_boxed(Some(scaling(fx(0.5), fx(0.5), fx(0.5))), None);
    s2.set_material(material);
    let w = World::new(Some(light), vec![s1, s2]);
    let r = Ray::new(&pt(0.0, 0.0, 0.75), &vc(0.0, 0.0, -1.0));
    let c = w.color_at(&r, 1);
    assert!(w.shapes[1].material.color.approx_eq(&c));
}

#[test]
fn there_is_no_shadow_when_nothing_is_collinear_with_point_and_light() {
    let w = default_world();
    let p = pt(0.0, 10.0, 0.0);
    assert_eq!(false, w.is_shadowed(&p));
}

#[test]
fn the_shadow_when_an_object_is_between_the_point_and_light() {
    let w = default_world();
    let p = pt(10.0, -10.0, 10.0);
    assert_eq!(true, w.is_shadowed(&p));
}

#[test]
fn there_is_no_shadow_when_an_object_is_behind_the_light() {
    let w = default_world();
    let p = pt(-20.0, 20.0, -20.0);
    assert_eq!(false, w.is_shadowed(&p));
}

#[test]
fn there_is_no_shadow_when_an_object_is_behind_the_point() {
    let w = default_world();
    let p = pt(-2.0, 2.0, -2.0);
    assert_eq!(false, w.is_shadowed(&p));
}

#[test]
fn the_reflected_color_for_a_nonreflective_material() {
    let light = PointLight::new(&pt(-10.0, 10.0, -10.0), &Color::white());
    let material = Material::new(
        None, None, Some(fx(1.0)), None, None, None, None, None, None,
    );
    let s = Sphere::new_boxed(Some(scaling(fx(0.5), fx(0.5), fx(0.5))), Some(material));
    let w = World::new(Some(light), vec![s]);
    let r = Ray::new(&pt(0.0, 0.0, 0.0), &vc(0.0, 0.0, 1.0));
    let i = Intersection::new(fx(1.0), s);
    let comps = Comps::prepare_computations(&i, &r, None);
    assert!(Color::black().approx_eq(&w.reflected_color(&comps, 1)));
}

fn reflective_floor_world() -> World {
    let light = PointLight::new(&pt(-10.0, 10.0, -10.0), &Color::white());
    let s1 = Sphere::new_boxed(None, Some(default_material()));
    let s2 = Sphere::new_boxed(Some(scaling(fx(0.5), fx(0.5), fx(0.5))), None);
    let m3 = Material::new(
        None, None, None, None, None, None, Some(fx(0.5)), None, None,
    );
    let plane = Plane::new_boxed(Some(translation(fx(0.0), fx(-1.0), fx(0.0))), Some(m3));
    World::new(Some(light), vec![plane, s1, s2])
}

#[test]
fn the_reflected_color_for_a_reflective_material() {
    let w = reflective_floor_world();
    let v = 2f64.sqrt() / 2.0;
    let r = Ray::new(&pt(0.0, 0.0, -3.0), &vc(0.0, -v, v));
    let i = Intersection::new(fx(2f64.sqrt()), w.shapes[0]);
    let comps = Comps::prepare_computations(&i, &r, None);
    let reflected_color = w.reflected_color(&comps, 1);
    assert!(col(0.19033, 0.23791, 0.14274).approx_eq(&reflected_color));
}

#[test]
fn shade_hit_with_a_reflective_material() {
    let w = reflective_floor_world();
    let v = 2f64.sqrt() / 2.0;
    let r = Ray::new(&pt(0.0, 0.0, -3.0), &vc(0.0, -v, v));
    let i = Intersection::new(fx(2f64.sqrt()), w.shapes[0]);
    let comps = Comps::prepare_computations(&i, &r, None);
    let color = w.shade_hit(&comps, 2);
    assert!(col(0.87676, 0.92434, 0.82917).approx_eq(&color));
}

#[test]
fn color_at_with_mutually_reflective_surfaces_terminates() {
    let light = PointLight::new(&pt(0.0, 0.0, 0.0), &Color::white());
    let material = Material::new(
        Some(col(0.8, 1.0, 0.6)),
        None,
        None,
        Some(fx(0.7)),
        Some(fx(0.2)),
        None,
        Some(fx(1.0)),
        None,
        None,
    );
    let lower = Plane::new_boxed(Some(translation(fx(0.0), fx(-1.0), fx(0.0))),
        Some(material));
    let upper = Plane::new_boxed(Some(translation(fx(0.0), fx(1.0), fx(0.0))),
        Some(material));
    let w = World::new(Some(light), vec![lower, upper]);
    let r = Ray::new(&pt(0.0, 0.0, 0.0), &vc(0.0, 1.0, 0.0));
    w.color_at(&r, 1);
}

#[test]
fn the_reflected_color_at_the_maximum_recursive_depth() {
    let w = reflective_floor_world();
    let v = 2f64.sqrt() / 2.0;
    let r = Ray::new(&pt(0.0, 0.0, -3.0), &vc(0.0, -v, v));
    let i = Intersection::new(fx(2f64.sqrt()), w.shapes[0]);
    let comps = Comps::prepare_computations(&i, &r, None);
    let color = w.reflected_color(&comps, 0);
    assert!(Color::black().approx_eq(&color));
}

#[test]
fn the_refracted_color_with_an_opaque_surface() {
    let w = default_world();
    let s = w.shapes[0];
    let r = Ray::new(&pt(0.0, 0.0, -5.0), &vc(0.0, 0.0, 1.0));
    let i0 = Intersection::new(fx(4.0), s);
    let i1 = Intersection::new(fx(6.0), s);
    let xs = Intersections::new(vec![i0, i1]);
    let comps = Comps::prepare_computations(&i0, &r, Some(xs));
    assert!(Color::black().approx_eq(&w.refracted_color(&comps, 5)));
}

fn transparent_first_sphere_world() -> (World, Shape) {
    let light = PointLight::new(&pt(-10.0, 10.0, -10.0), &Color::white());
    let m = Material::new(
        Some(col(0.8, 1.0, 0.6)),
        None,
        None,
        Some(fx(0.7)),
        Some(fx(0.2)),
        None,
        None,
        Some(fx(1.0)),
        Some(fx(1.5)),
    );
    let s = Sphere::new_boxed(None, Some(m));
    let s2 = Sphere::new_boxed(None, Some(default_material()));
    let w = World::new(Some(light), vec![s, s2]);
    (w, s)
}

#[test]
fn the_refracted_color_at_the_maximum_recursive_depth() {
    let (w, s) = transparent_first_sphere_world();
    let r = Ray::new(&pt(0.0, 0.0, -5.0), &vc(0.0, 0.0, 1.0));
    let i0 = Intersection::new(fx(4.0), s);
    let i1 = Intersection::new(fx(6.0), s);
    let xs = Intersections::new(vec![i0, i1]);
    let comps = Comps::prepare_computations(&i0, &r, Some(xs));
    let color = w.refracted_color(&comps, 0);
    assert!(Color::black().approx_eq(&color));
}

#[test]
fn the_refracted_color_under_total_internal_reflection() {
    let (w, s) = transparent_first_sphere_world();
    let v = 2f64.sqrt() / 2.0;
    let r = Ray::new(&pt(0.0, 0.0, v), &vc(0.0, 1.0, 0.0));
    let i0 = Intersection::new(fx(-v), s);
    let i1 = Intersection::new(fx(v), s);
    let xs = Intersections::new(vec![i0, i1]);
    let comps = Comps::prepare_computations(&i1, &r, Some(xs));
    let color = w.refracted_color(&comps, 5);
    assert!(Color::black().approx_eq(&color));
}

#[test]
fn the_refracted_color_with_a_refacted_ray() {
    let light = PointLight::new(&pt(-10.0, 10.0, -10.0), &Color::white());
    let m1 = Material::new(
        Some(col(0.8, 1.0, 0.6)),
        Some(PatternType::Test(TestPattern::new(None))),
        Some(fx(1.0)),
        Some(fx(0.7)),
        Some(fx(0.2)),
        None,
        None,
        None,
        None,
    );
    let s1 = Sphere::new_boxed(None, Some(m1));
    let m2 = Material::new(
        None, None, None, None, None, None, None, Some(fx(1.0)), Some(fx(1.5)),
    );
    let s2 = Sphere::new_boxed(Some(scaling(fx(0.5), fx(0.5), fx(0.5))), Some(m2));
    let w = World::new(Some(light), vec![s1, s2]);

    let r = Ray::new(&pt(0.0, 0.0, 0.1), &vc(0.0, 1.0, 0.0));
    let i0 = Intersection::new(fx(-0.9899), s1);
    let i1 = Intersection::new(fx(-0.4899), s2);
    let i2 = Intersection::new(fx(0.4899), s2);
    let i3 = Intersection::new(fx(0.9899), s1);
    let xs = Intersections::new(vec![i0, i1, i2, i3]);
    let comps = Comps::prepare_computations(&i2, &r, Some(xs));
    let color = w.refracted_color(&comps, 5);
    assert!(col(0.0, 0.99888, 0.04722).approx_eq(&color));
}

#[test]
fn shade_hit_with_a_transparent_meterial() {
    let base = default_world();
    let floor_material = Material::new(
        None, None, None, None, None, None, None, Some(fx(0.5)), Some(fx(1.5)),
    );
    let floor = Plane::new_boxed(Some(translation(fx(0.0), fx(-1.0), fx(0.0))),
        Some(floor_material));
    let ball_material = Material::new(
        Some(col(1.0, 0.0, 0.0)),
        None,
        Some(fx(0.5)),
        None,
        None,
        None,
        None,
        None,
        None,
    );
    let ball = Sphere::new_boxed(Some(translation(fx(0.0), fx(-3.5), fx(-0.5))),
        Some(ball_material));
    let w = World::new(base.light, vec![base.shapes[0], base.shapes[1], floor, ball]);
    let v = 2f64.sqrt() / 2.0;
    let r = Ray::new(&pt(0.0, 0.0, -3.0), &vc(0.0, -v, v));
    let i = Intersection::new(fx(2f64.sqrt()), floor);
    let xs = Intersections::new(vec![i]);
    let comps = Comps::prepare_computations(&i, &r, Some(xs));
    let color = w.shade_hit(&comps, 5);
    assert!(col(0.93642, 0.68642, 0.68642).approx_eq(&color));
}

fn glassy_sphere() -> Shape {
    let m = Material::new(
        None, None, None, None, None, None, None, Some(fx(1.0)), Some(fx(1.5)),
    );
    Sphere::new_boxed(None, Some(m))
}

#[test]
fn the_schlick_approximation_under_total_internal_reflection() {
    let s = glassy_sphere();
    let v = 2f64.sqrt() / 2.0;
    let r = Ray::new(&pt(0.0, 0.0, v), &vc(0.0, 1.0, 0.0));
    let i0 = Intersection::new(fx(-v), s);
    let i1 = Intersection::new(fx(v), s);
    let xs = Intersections::new(vec![i0, i1]);
    let comps = Comps::prepare_computations(&i1, &r, Some(xs));
    assert!(aeq(schlick(&comps), 1.0));
}

#[test]
fn the_schlick_approximation_with_a_perpendicular_viewing_angle() {
    let s = glassy_sphere();
    let r = Ray::new(&pt(0.0, 0.0, 0.0), &vc(0.0, 1.0, 0.0));
    let i0 = Intersection::new(fx(-1.0), s);
    let i1 = Intersection::new(fx(1.0), s);
    let xs = Intersections::new(vec![i0, i1]);
    let comps = Comps::prepare_computations(&i1, &r, Some(xs));
    assert!(aeq(schlick(&comps), 0.04));
}

#[test]
fn the_schlick_approximation_with_small_angle_and_n2_greather_than_n1() {
    let s = glassy_sphere();
    let r = Ray::new(&pt(0.0, 0.99, -2.0), &vc(0.0, 0.0, 1.0));
    let i0 = Intersection::new(fx(1.8589), s);
    let xs = Intersections::new(vec![i0]);
    let comps = Comps::prepare_computations(&i0, &r, Some(xs));
    assert!(aeq(schlick(&comps), 0.48873));
}

#[test]
fn shade_hit_with_a_reflective_transparent_material() {
    let base = default_world();
    let floor_material = Material::new(
        None, None, None, None, None, None, Some(fx(0.5)), Some(fx(0.5)), Some(fx(1.5)),
    );
    let floor = Plane::new_boxed(Some(translation(fx(0.0), fx(-1.0), fx(0.0))),
        Some(floor_material));
    let ball_material = Material::new(
        Some(col(1.0, 0.0, 0.0)),
        None,
        Some(fx(0.5)),
        None,
        None,
        None,
        None,
        None,
        None,
    );
    let ball = Sphere::new_boxed(Some(translation(fx(0.0), fx(-3.5), fx(-0.5))),
        Some(ball_material));
    let w = World::new(base.light, vec![base.shapes[0], base.shapes[1], floor, ball]);
    let v = 2f64.sqrt() / 2.0;
    let r = Ray::new(&pt(0.0, 0.0, -3.0), &vc(0.0, -v, v));
    let i = Intersection::new(fx(2f64.sqrt()), floor);
    let xs = Intersections::new(vec![i]);
    let comps = Comps::prepare_computations(&i, &r, Some(xs));
    let color = w.shade_hit(&comps, 5);
    assert!(col(0.93391, 0.69643, 0.69243).approx_eq(&color));
}

#[test]
fn a_world_without_a_light_shades_black() {
    let s1 = Sphere::new_boxed(None, Some(default_material()));
    let w = World::new(None, vec![s1]);
    let r = Ray::new(&pt(0.0, 0.0, -5.0), &vc(0.0, 0.0, 1.0));
    let c = w.color_at(&r, 5);
    assert!(Color::black().approx_eq(&c));
}

#[test]
fn a_zero_bounce_budget_shades_black() {
    let w = default_world();
    let r = Ray::new(&pt(0.0, 0.0, -5.0), &vc(0.0, 0.0, 1.0));
    let c = w.color_at(&r, 0);
    assert!(Color::black().approx_eq(&c));
}
