//! Kinds of shapes, and the color rules of a lit surface.

use crate::units::color::{black, fits, rgb, QuantColor};
use vstd::prelude::*;

verus! {

/// The geometric primitives. In its own space a sphere is the unit sphere at
/// the origin, and a plane is the plane through the origin with normal `+y`.
#[derive(Debug, Clone, Copy, PartialEq, Eq, Structural)]
pub enum ObjectType {
    Sphere,
    Plane,
}

/// How many whole units of light a channel of a light's intensity holds: the
/// channel divided by 255, rounded toward zero.
pub open spec fn light_units(channel: int) -> int {
    if channel >= 0 {
        channel / 255
    } else {
        -((-channel) / 255)
    }
}

/// The color of a surface under a light, before any angle is taken into
/// account: each surface channel times the light's units, then clamped.
pub open spec fn effective(surface: QuantColor, light: QuantColor) -> QuantColor {
    rgb(
        surface.r * light_units(light.r as int),
        surface.g * light_units(light.g as int),
        surface.b * light_units(light.b as int),
    ).clamped()
}

/// The color of a surface under a light of the given intensity, see
/// [`effective`]. The products must fit the channels.
pub fn effective_color(surface: QuantColor, light: QuantColor) -> (c: QuantColor)
    requires
        fits(surface.r * light_units(light.r as int)),
        fits(surface.g * light_units(light.g as int)),
        fits(surface.b * light_units(light.b as int)),
    ensures
        c == effective(surface, light),
{
    let intensity = QuantColor::new(light.r / 255, light.g / 255, light.b / 255);
    (surface * intensity).clamp()
}

/// The Phong sum of three contributions. Each contribution is clamped on its
/// own. The diffuse one counts only where the surface faces the light, the
/// specular one only where, besides, the reflected light runs toward the eye.
/// In shadow the ambient contribution is all there is.
pub open spec fn phong(
    ambient: QuantColor,
    diffuse: QuantColor,
    specular: QuantColor,
    faces_light: bool,
    faces_eye: bool,
    in_shadow: bool,
) -> QuantColor {
    let a = ambient.clamped();
    let d = if faces_light {
        diffuse.clamped()
    } else {
        black()
    };
    let s = if faces_light && faces_eye {
        specular.clamped()
    } else {
        black()
    };
    if in_shadow {
        a
    } else {
        rgb(a.r + d.r + s.r, a.g + d.g + s.g, a.b + d.b + s.b)
    }
}

/// Lights a point of a surface from its three scaled contributions, see
/// [`phong`]. The result is not clamped: its channels lie in `0..=765`.
pub fn lightning(
    ambient: QuantColor,
    diffuse: QuantColor,
    specular: QuantColor,
    faces_light: bool,
    faces_eye: bool,
    in_shadow: bool,
) -> (c: QuantColor)
    ensures
        c == phong(ambient, diffuse, specular, faces_light, faces_eye, in_shadow),
        0 <= c.r <= 765 && 0 <= c.g <= 765 && 0 <= c.b <= 765,
{
    let ambient_part = ambient.clamp();
    let diffuse_part;
    let specular_part;
    if !faces_light {
        diffuse_part = black();
        specular_part = black();
    } else {
        diffuse_part = diffuse.clamp();
        if !faces_eye {
            specular_part = black();
        } else {
            specular_part = specular.clamp();
        }
    }
    if in_shadow {
        ambient_part
    } else {
        ambient_part + diffuse_part + specular_part
    }
}

} // verus!
