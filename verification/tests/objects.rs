use raytracer::units::color::{black, white, QuantColor};
use raytracer::units::objects;
use raytracer::units::objects::{effective_color, ObjectType};

fn scale(c: QuantColor, k: f64) -> QuantColor {
    QuantColor::new(
        (c.r as f64 * k) as i64,
        (c.g as f64 * k) as i64,
        (c.b as f64 * k) as i64,
    )
}

fn dot(a: [f64; 3], b: [f64; 3]) -> f64 {
    a[0] * b[0] + a[1] * b[1] + a[2] * b[2]
}

fn normalize(a: [f64; 3]) -> [f64; 3] {
    let m = dot(a, a).sqrt();
    [a[0] / m, a[1] / m, a[2] / m]
}

fn reflect(v: [f64; 3], n: [f64; 3]) -> [f64; 3] {
    let d = 2. * dot(v, n);
    [v[0] - n[0] * d, v[1] - n[1] * d, v[2] - n[2] * d]
}

/// Lights the origin of a surface with the default material: white, ambient
/// 0.1, diffuse 0.9, specular 0.9, shininess 200.
fn light_default_material(
    light_at: [f64; 3],
    light: QuantColor,
    eyev: [f64; 3],
    normalv: [f64; 3],
    in_shadow: bool,
) -> QuantColor {
    let effective = effective_color(white(), light);
    let lightv = normalize(light_at);
    let light_dot_normal = dot(lightv, normalv);
    let reflectv = reflect([-lightv[0], -lightv[1], -lightv[2]], normalv);
    let reflect_dot_eye = dot(reflectv, eyev);
    let ambient = scale(effective, 0.1);
    let diffuse = scale(scale(effective, 0.9), light_dot_normal);
    let specular = scale(scale(light, 0.9), reflect_dot_eye.powf(200.));
    objects::lightning(
        ambient,
        diffuse,
        specular,
        !(light_dot_normal < 0.),
        !(reflect_dot_eye <= 0.),
        in_shadow,
    )
}

#[test]
fn lightning() {
    let half = (2.0 as f64).sqrt() / 2.;

    // Lighting with the eye between the light and the surface
    let res = light_default_material(
        [0., 0., -10.],
        QuantColor::new(255, 255, 255),
        [0., 0., -1.],
        [0., 0., -1.],
        false,
    );
    assert_eq!(res, QuantColor::new(483, 483, 483));

    // Lighting with the eye between light and surface, eye offset 45 degrees
    let res = light_default_material(
        [0., 0., -10.],
        white(),
        [0., half, half],
        [0., 0., -1.],
        false,
    )
    .clamp();
    assert_eq!(res, QuantColor::new(254, 254, 254));

    // Lighting with eye opposite surface, light offset 45 degrees
    let res = light_default_material(
        [0., 10., -10.],
        QuantColor::new(255, 255, 255),
        [0., 0., -1.],
        [0., 0., -1.],
        false,
    );
    assert_eq!(res, QuantColor::new(186, 186, 186));

    // Lighting with eye in the path of the reflection vector
    let res = light_default_material(
        [0., 10., -10.],
        QuantColor::new(255, 255, 255),
        [0., -half, -half],
        [0., 0., -1.],
        false,
    );
    assert_eq!(res, QuantColor::new(415, 415, 415));

    // Lighting with the light behind the surface
    let res = light_default_material(
        [0., 10., 10.],
        QuantColor::new(255, 255, 255),
        [0., 0., -1.],
        [0., 0., -1.],
        false,
    );
    assert_eq!(res, QuantColor::new(25, 25, 25));

    // Lighting with the surface in shadow
    let res = light_default_material(
        [0., 10., 10.],
        QuantColor::new(255, 255, 255),
        [0., 0., -1.],
        [0., 0., -1.],
        true,
    );
    assert_eq!(res, QuantColor::new(25, 25, 25));
}

#[test]
fn lightning_sums_the_three_parts() {
    let a = QuantColor::new(25, 25, 25);
    let d = QuantColor::new(229, 229, 229);
    let s = QuantColor::new(229, 229, 229);
    assert_eq!(objects::lightning(a, d, s, true, true, false), QuantColor::new(483, 483, 483));
    assert_eq!(objects::lightning(a, d, s, true, false, false), QuantColor::new(254, 254, 254));
    assert_eq!(objects::lightning(a, d, s, false, true, false), a);
    assert_eq!(objects::lightning(a, d, s, false, false, false), a);
    assert_eq!(objects::lightning(a, d, s, true, true, true), a);
}

#[test]
fn lightning_clamps_each_part() {
    let c = objects::lightning(
        QuantColor::new(300, -5, 10),
        QuantColor::new(1000, 20, -1),
        QuantColor::new(255, 256, 3),
        true,
        true,
        false,
    );
    assert_eq!(c, QuantColor::new(765, 275, 13));
}

#[test]
fn effective_color_counts_whole_units_of_light() {
    let surface = QuantColor::new(204, 255, 153);
    assert_eq!(effective_color(surface, white()), surface);
    // a channel below 255 holds no unit of light
    assert_eq!(effective_color(surface, QuantColor::new(254, 255, 0)), QuantColor::new(0, 255, 0));
    // two units double the channel, and the product is clamped
    assert_eq!(
        effective_color(QuantColor::new(100, 200, 3), QuantColor::new(510, 510, 510)),
        QuantColor::new(200, 255, 6)
    );
    // a negative intensity is divided toward zero
    assert_eq!(effective_color(surface, QuantColor::new(-254, -255, -256)), black());
}

#[test]
fn object_types_differ() {
    assert_eq!(ObjectType::Sphere, ObjectType::Sphere);
    assert_ne!(ObjectType::Sphere, ObjectType::Plane);
}
