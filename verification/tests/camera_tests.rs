use std::f64::consts::FRAC_PI_2;
use std::f64::consts::FRAC_PI_4;
use tracer::camera::Camera;
use tracer::canvas::Canvas;
use tracer::color::Color;
use tracer::fixed::EPSILON;
use tracer::light::PointLight;
use tracer::material::Material;
use tracer::matrix::Matrix;
use tracer::ppm::as_rgb255;
use tracer::ppm::clamp;
use tracer::shape::Sphere;
use tracer::transform::rotation_y;
use tracer::transform::scaling;
use tracer::transform::translation;
use tracer::transformation::view_transform;
use tracer::tuple::Tuple;
use tracer::world::World;

fn fx(v: f64) -> i128 {
    (v * 1_000_000_000f64).round() as i128
}

fn pt(x: f64, y: f64, z: f64) -> Tuple {
    Tuple::point(fx(x), fx(y), fx(z))
}

fn vc(x: f64, y: f64, z: f64) -> Tuple {
    Tuple::vector(fx(x), fx(y), fx(z))
}

fn col(r: f64, g: f64, b: f64) -> Color {
    Color::new(fx(r), fx(g), fx(b))
}

fn aeq(a: i128, b: f64) -> bool {
    (a - fx(b)).abs() <= EPSILON
}

fn half_view(fov: f64) -> i128 {
    fx((fov / 2.0).tan())
}

fn default_world() -> World {
    let light = PointLight::new(&pt(-10.0, 10.0, -10.0), &Color::white());
    let material = Material::new(
        Some(col(0.8, 1.0, 0.6)),
        None,
        None,
        Some(fx(0.7)),
        Some(fx(0.2)),
        None,
        None,
        None,
        None,
    );
    let s1 = Sphere::new_boxed(None, Some(material));
    let s2 = Sphere::new_boxed(Some(scaling(fx(0.5), fx(0.5), fx(0.5))), None);
    World::new(Some(light), vec![s1, s2])
}

#[test]
fn constructing_a_camera() {
    let c = Camera::new(160, 120, half_view(FRAC_PI_2), None);
    assert_eq!(160, c.hsize);
    assert_eq!(120, c.vsize);
    assert!(aeq(c.half_view, 1.0));
    assert!(c.transform.approx_eq(&Matrix::identity()));
}

#[test]
fn the_pixel_size_for_a_horizontal_canvas() {
    let c = Camera::new(200, 125, half_view(FRAC_PI_2), None);
    assert!(aeq(c.pixel_size, 0.01));
}

#[test]
fn the_pixel_size_for_a_vertical_canvas() {
    let c = Camera::new(125, 200, half_view(FRAC_PI_2), None);
    assert!(aeq(c.pixel_size, 0.01));
}

#[test]
fn constructing_a_ray_through_the_center_of_the_canvas() {
    let c = Camera::new(201, 101, half_view(FRAC_PI_2), None);
    let r = c.ray_for_pixel(100, 50);
    assert!(pt(0.0, 0.0, 0.0).approx_eq(&r.origin));
    assert!(vc(0.0, 0.0, -1.0).approx_eq(&r.direction));
}

#[test]
fn constructing_a_ray_through_a_corner_of_the_canvas() {
    let c = Camera::new(201, 101, half_view(FRAC_PI_2), None);
    let r = c.ray_for_pixel(0, 0);
    assert!(pt(0.0, 0.0, 0.0).approx_eq(&r.origin));
    assert!(vc(0.66519, 0.33259, -0.66851).approx_eq(&r.direction));
}

#[test]
fn constructing_a_ray_when_the_camera_is_transformed() {
    let rot = rotation_y(fx(FRAC_PI_4.cos()), fx(FRAC_PI_4.sin()));
    let t = rot.times(&translation(fx(0.0), fx(-2.0), fx(5.0)));
    let c = Camera::new(201, 101, half_view(FRAC_PI_2), Some(t));
    let r = c.ray_for_pixel(100, 50);
    let v = 2f64.sqrt() / 2.0;
    assert!(pt(0.0, 2.0, -5.0).approx_eq(&r.origin));
    assert!(vc(v, 0.0, -v).approx_eq(&r.direction));
}

#[test]
fn rendering_a_world_with_a_camera() {
    let w = default_world();
    let from = pt(0.0, 0.0, -5.0);
    let to = pt(0.0, 0.0, 0.0);
    let up = vc(0.0, 1.0, 0.0);
    let t = view_transform(&from, &to, &up);
    let c = Camera::new(11, 11, half_view(FRAC_PI_2), Some(t));
    let image = c.render(&w);
    assert!(col(0.38066, 0.47583, 0.2855).approx_eq(&image.pixel_at(5, 5)));
}

#[test]
fn creating_a_canvas() {
    let c = Canvas::new(10, 20);
    assert_eq!(c.width, 10);
    assert_eq!(c.height, 20);
    let mut y = 0;
    while y < 20 {
        let mut x = 0;
        while x < 10 {
            assert!(Color::black().approx_eq(&c.pixel_at(x, y)));
            x += 1;
        }
        y += 1;
    }
}

#[test]
fn writing_pixels_to_a_canvas() {
    let mut c = Canvas::new(10, 20);
    let red = col(1.0, 0.0, 0.0);
    c.write_pixel(2, 3, red);
    assert!(red.approx_eq(&c.pixel_at(2, 3)));
}

#[test]
fn clamping_keeps_values_inside_the_byte_range() {
    assert_eq!(0, clamp(-4, 0, 255));
    assert_eq!(255, clamp(300, 0, 255));
    assert_eq!(128, clamp(128, 0, 255));
}

#[test]
fn channels_map_to_the_byte_range() {
    assert_eq!(0, as_rgb255(fx(-0.5)));
    assert_eq!(255, as_rgb255(fx(1.5)));
    assert_eq!(255, as_rgb255(fx(1.0)));
    assert_eq!(0, as_rgb255(fx(0.0)));
    assert_eq!(127, as_rgb255(fx(0.5)));
    assert_eq!(204, as_rgb255(fx(0.8)));
}
