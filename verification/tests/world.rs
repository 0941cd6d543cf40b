use raytracer::render::world;
use raytracer::render::world::{color_at, intersect, is_shadowed, reflect_color, shade_hit};
use raytracer::units::color::{black, QuantColor};
use raytracer::units::intersect::Intersection;

fn key(t: f64) -> i64 {
    let magnitude = (t.to_bits() & (i64::MAX as u64)) as i64;
    if t.is_sign_negative() {
        -magnitude
    } else {
        magnitude
    }
}

fn scale(c: QuantColor, k: f64) -> QuantColor {
    QuantColor::new(
        (c.r as f64 * k) as i64,
        (c.g as f64 * k) as i64,
        (c.b as f64 * k) as i64,
    )
}

#[test]
fn world_intersect() {
    // a unit sphere and one of half the size, met by a ray from (0, 0, -5)
    let found = vec![
        vec![Intersection::new(key(4.), 0), Intersection::new(key(6.), 0)],
        vec![Intersection::new(key(4.5), 1), Intersection::new(key(5.5), 1)],
    ];
    let ints = intersect(&found);
    assert_eq!(ints.len(), 4);
    println!("{:?}", ints);
    assert_eq!(ints[0], Intersection::new(key(4.), 0));
    assert_eq!(ints[1], Intersection::new(key(4.5), 1));
    assert_eq!(ints[2], Intersection::new(key(5.5), 1));
    assert_eq!(ints[3], Intersection::new(key(6.), 0));
}

#[test]
fn world_shade_hit() {
    // Shading an intersection: nothing is reflected or refracted
    let color = shade_hit(QuantColor::new(96, 120, 72), black(), black());
    assert_eq!(color, QuantColor::new(96, 120, 72));

    // shade_hit() with a reflective material
    let color = shade_hit(
        QuantColor::new(174, 174, 174),
        QuantColor::new(48, 60, 36),
        black(),
    );
    assert_eq!(QuantColor::new(222, 234, 210), color);
}

#[test]
fn world_color_at() {
    // The color when a ray misses
    let c = color_at(&Vec::new(), |_| QuantColor::new(1, 2, 3));
    assert_eq!(c, black());

    // The color when a ray hits
    let ints = vec![
        Intersection::new(key(4.), 0),
        Intersection::new(key(4.5), 1),
        Intersection::new(key(5.5), 1),
        Intersection::new(key(6.), 0),
    ];
    let c = color_at(&ints, |hit| {
        assert_eq!(hit, Intersection::new(key(4.), 0));
        QuantColor::new(96, 120, 72)
    });
    assert_eq!(c, QuantColor::new(96, 120, 72));

    // The color with an intersection behind the ray
    let ints = vec![
        Intersection::new(key(-0.25), 0),
        Intersection::new(key(0.25), 1),
        Intersection::new(key(1.25), 1),
        Intersection::new(key(1.75), 0),
    ];
    let inner = QuantColor::new(255, 255, 255);
    let c = color_at(&ints, |hit| {
        assert_eq!(hit.object, 1);
        inner
    });
    assert_eq!(c, inner);
}

#[test]
fn world_is_shadowed() {
    // There is no shadow when nothing is collinear with point and light
    assert!(!is_shadowed(&Vec::new(), Some(key(14.142))));

    // The shadow when an object is between the point and the light
    let between = vec![
        Intersection::new(key(16.32), 0),
        Intersection::new(key(16.82), 1),
        Intersection::new(key(17.82), 1),
        Intersection::new(key(18.32), 0),
    ];
    assert!(is_shadowed(&between, Some(key(34.641))));

    // There is no shadow when an object is behind the light
    let behind_light = vec![
        Intersection::new(key(33.64), 0),
        Intersection::new(key(35.64), 0),
    ];
    assert!(!is_shadowed(&behind_light, Some(key(17.32))));

    // There is no shadow when an object is behind the point
    let behind_point = vec![
        Intersection::new(key(-4.46), 0),
        Intersection::new(key(-2.46), 0),
    ];
    assert!(!is_shadowed(&behind_point, Some(key(13.856))));
}

#[test]
fn world_reflect_color() {
    // The reflected color for a nonreflective material
    let color = reflect_color(false, 1, |_| QuantColor::new(9, 9, 9));
    assert_eq!(color, black());

    // The reflected color for a reflective material
    let color = reflect_color(true, 1, |left| {
        assert_eq!(left, 0);
        scale(QuantColor::new(96, 120, 72), 0.5)
    });
    assert_eq!(QuantColor::new(48, 60, 36), color);

    // The reflected color at the maximum recursive depth
    let color = reflect_color(true, 0, |_| QuantColor::new(9, 9, 9));
    assert_eq!(black(), color);
}

#[test]
fn refract_color() {
    // The refracted color with an opaque surface
    let c = world::refract_color(false, false, 5, |_| QuantColor::new(9, 9, 9));
    assert_eq!(c, black());

    // The refracted color at the maximum recursive depth
    let c = world::refract_color(true, false, 0, |_| QuantColor::new(9, 9, 9));
    assert_eq!(c, black());

    // The refracted color under total internal reflection
    let c = world::refract_color(true, true, 5, |_| QuantColor::new(9, 9, 9));
    assert_eq!(c, black());

    // The refracted color with a refracted ray
    let c = world::refract_color(true, false, 5, |left| {
        assert_eq!(left, 4);
        QuantColor::new(0, 254, 12)
    });
    assert_eq!(c, QuantColor::new(0, 254, 12));
}

#[test]
fn no_bounce_without_budget_whatever_the_material() {
    for reflective in [false, true] {
        let c = reflect_color(reflective, 0, |_| QuantColor::new(255, 255, 255));
        assert_eq!(c, black());
        for total in [false, true] {
            let c = world::refract_color(reflective, total, 0, |_| QuantColor::new(255, 255, 255));
            assert_eq!(c, black());
        }
    }
}

#[test]
fn bounce_budget_shrinks_by_one() {
    let mut seen = Vec::new();
    let mut left = 5;
    while left > 0 {
        let mut next = 0;
        reflect_color(true, left, |l| {
            next = l;
            black()
        });
        seen.push(next);
        left = next;
    }
    assert_eq!(seen, vec![4, 3, 2, 1, 0]);
}

#[test]
fn shade_hit_clamps_the_sum() {
    let c = shade_hit(
        QuantColor::new(483, 100, 0),
        QuantColor::new(10, 100, -40),
        QuantColor::new(0, 100, 10),
    );
    assert_eq!(c, QuantColor::new(255, 255, 0));
}

#[test]
fn intersect_of_no_shapes_is_empty() {
    assert!(intersect(&Vec::new()).is_empty());
    assert!(intersect(&vec![Vec::new(), Vec::new()]).is_empty());
}

#[test]
fn intersect_keeps_found_order_among_equal_keys() {
    let found = vec![
        vec![Intersection::new(5, 0), Intersection::new(5, 1)],
        vec![Intersection::new(-1, 2), Intersection::new(5, 3)],
        vec![Intersection::new(7, 4), Intersection::new(5, 5)],
    ];
    let all = intersect(&found);
    let objects: Vec<usize> = all.iter().map(|i| i.object).collect();
    assert_eq!(objects, vec![2, 0, 1, 3, 5, 4]);
    let keys: Vec<i64> = all.iter().map(|i| i.t).collect();
    assert_eq!(keys, vec![-1, 5, 5, 5, 5, 7]);
}

#[test]
fn no_light_casts_no_shadow() {
    let xs = vec![Intersection::new(3, 0)];
    assert!(!is_shadowed(&xs, None));
    assert!(is_shadowed(&xs, Some(4)));
    assert!(!is_shadowed(&xs, Some(3)));
}
