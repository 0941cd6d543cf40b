//! Colors with integer channels.

use vstd::prelude::*;
use vstd::std_specs::convert::FromSpecImpl;
use vstd::std_specs::ops::AddSpecImpl;
use vstd::std_specs::ops::MulSpecImpl;
use vstd::std_specs::ops::SubSpecImpl;

verus! {

/// A color with one integer per channel. A displayable color has every
/// channel in `0..=255`; intermediate results of shading may leave that range.
#[derive(Debug, Clone, Copy, PartialEq, Eq, Structural)]
pub struct QuantColor {
    /// Red
    pub r: i64,
    /// Green
    pub g: i64,
    /// Blue
    pub b: i64,
}

/// The color with the given channels, as a specification value.
pub open spec fn rgb(r: int, g: int, b: int) -> QuantColor {
    QuantColor { r: r as i64, g: g as i64, b: b as i64 }
}

/// The value of one channel after clamping to the displayable range.
pub open spec fn clamp_channel(v: int) -> int {
    if v > 255 {
        255
    } else if v < 0 {
        0
    } else {
        v
    }
}

/// Whether `v` can be stored in a channel.
pub open spec fn fits(v: int) -> bool {
    i64::MIN <= v <= i64::MAX
}

/// Black, in contracts.
pub open spec fn spec_black() -> QuantColor {
    rgb(0, 0, 0)
}

/// Black
#[verifier::when_used_as_spec(spec_black)]
pub fn black() -> (c: QuantColor)
    ensures
        c == rgb(0, 0, 0),
{
    QuantColor { r: 0, g: 0, b: 0 }
}

/// White, in contracts.
pub open spec fn spec_white() -> QuantColor {
    rgb(255, 255, 255)
}

/// White
#[verifier::when_used_as_spec(spec_white)]
pub fn white() -> (c: QuantColor)
    ensures
        c == rgb(255, 255, 255),
{
    QuantColor { r: 255, g: 255, b: 255 }
}

/// Red
pub fn red() -> (c: QuantColor)
    ensures
        c == rgb(255, 0, 0),
{
    QuantColor { r: 255, g: 0, b: 0 }
}

/// Green
pub fn green() -> (c: QuantColor)
    ensures
        c == rgb(0, 255, 0),
{
    QuantColor { r: 0, g: 255, b: 0 }
}

/// Blue
pub fn blue() -> (c: QuantColor)
    ensures
        c == rgb(0, 0, 255),
{
    QuantColor { r: 0, g: 0, b: 255 }
}

impl QuantColor {
    /// The color with the given channels.
    pub fn new(r: i64, g: i64, b: i64) -> (c: QuantColor)
        ensures
            c == rgb(r as int, g as int, b as int),
    {
        QuantColor { r, g, b }
    }

    /// Whether every channel lies in `0..=255`.
    pub open spec fn displayable(self) -> bool {
        0 <= self.r <= 255 && 0 <= self.g <= 255 && 0 <= self.b <= 255
    }

    /// This color with every channel clamped to `0..=255`.
    pub open spec fn clamped(self) -> QuantColor {
        rgb(
            clamp_channel(self.r as int),
            clamp_channel(self.g as int),
            clamp_channel(self.b as int),
        )
    }

    /// Clamps every channel: one above 255 becomes 255, one below 0 becomes 0.
    /// The result is displayable, and a displayable color stays as it is.
    pub fn clamp(&self) -> (c: QuantColor)
        ensures
            c == self.clamped(),
            c.displayable(),
            self.displayable() ==> c == *self,
    {
        let mut return_color = *self;
        if return_color.r > 255 {
            return_color.r = 255;
        } else if return_color.r < 0 {
            return_color.r = 0;
        }
        if return_color.g > 255 {
            return_color.g = 255;
        } else if return_color.g < 0 {
            return_color.g = 0;
        }
        if return_color.b > 255 {
            return_color.b = 255;
        } else if return_color.b < 0 {
            return_color.b = 0;
        }
        return_color
    }
}

/// Channel-wise sum. The sums must fit the channels.
impl core::ops::Add for QuantColor {
    type Output = QuantColor;

    fn add(self, other: QuantColor) -> (c: QuantColor) {
        QuantColor::new(self.r + other.r, self.g + other.g, self.b + other.b)
    }
}

impl AddSpecImpl for QuantColor {
    open spec fn obeys_add_spec() -> bool {
        true
    }

    open spec fn add_req(self, other: QuantColor) -> bool {
        fits(self.r + other.r) && fits(self.g + other.g) && fits(self.b + other.b)
    }

    open spec fn add_spec(self, other: QuantColor) -> QuantColor {
        rgb(self.r + other.r, self.g + other.g, self.b + other.b)
    }
}

/// Channel-wise difference. The differences must fit the channels.
impl core::ops::Sub for QuantColor {
    type Output = QuantColor;

    fn sub(self, other: QuantColor) -> (c: QuantColor) {
        QuantColor::new(self.r - other.r, self.g - other.g, self.b - other.b)
    }
}

impl SubSpecImpl for QuantColor {
    open spec fn obeys_sub_spec() -> bool {
        true
    }

    open spec fn sub_req(self, other: QuantColor) -> bool {
        fits(self.r - other.r) && fits(self.g - other.g) && fits(self.b - other.b)
    }

    open spec fn sub_spec(self, other: QuantColor) -> QuantColor {
        rgb(self.r - other.r, self.g - other.g, self.b - other.b)
    }
}

/// Channel-wise product. The products must fit the channels.
impl core::ops::Mul for QuantColor {
    type Output = QuantColor;

    fn mul(self, other: QuantColor) -> (c: QuantColor) {
        QuantColor::new(self.r * other.r, self.g * other.g, self.b * other.b)
    }
}

impl MulSpecImpl for QuantColor {
    open spec fn obeys_mul_spec() -> bool {
        true
    }

    open spec fn mul_req(self, other: QuantColor) -> bool {
        fits(self.r * other.r) && fits(self.g * other.g) && fits(self.b * other.b)
    }

    open spec fn mul_spec(self, other: QuantColor) -> QuantColor {
        rgb(self.r * other.r, self.g * other.g, self.b * other.b)
    }
}

/// Every channel times an integer. The products must fit the channels.
impl core::ops::Mul<i64> for QuantColor {
    type Output = QuantColor;

    fn mul(self, scalar: i64) -> (c: QuantColor) {
        QuantColor::new(self.r * scalar, self.g * scalar, self.b * scalar)
    }
}

impl MulSpecImpl<i64> for QuantColor {
    open spec fn obeys_mul_spec() -> bool {
        true
    }

    open spec fn mul_req(self, scalar: i64) -> bool {
        fits(self.r * scalar) && fits(self.g * scalar) && fits(self.b * scalar)
    }

    open spec fn mul_spec(self, scalar: i64) -> QuantColor {
        rgb(self.r * scalar, self.g * scalar, self.b * scalar)
    }
}

/// An integer times every channel. The products must fit the channels.
impl core::ops::Mul<QuantColor> for i64 {
    type Output = QuantColor;

    fn mul(self, other: QuantColor) -> (c: QuantColor) {
        QuantColor::new(self * other.r, self * other.g, self * other.b)
    }
}

impl MulSpecImpl<QuantColor> for i64 {
    open spec fn obeys_mul_spec() -> bool {
        true
    }

    open spec fn mul_req(self, other: QuantColor) -> bool {
        fits(self * other.r) && fits(self * other.g) && fits(self * other.b)
    }

    open spec fn mul_spec(self, other: QuantColor) -> QuantColor {
        rgb(self * other.r, self * other.g, self * other.b)
    }
}

/// The default color is white.
impl Default for QuantColor {
    fn default() -> (c: QuantColor)
        ensures
            c == rgb(255, 255, 255),
    {
        white()
    }
}

/// A color from its three channels in the order red, green, blue.
impl From<[i64; 3]> for QuantColor {
    fn from(a: [i64; 3]) -> (c: QuantColor) {
        QuantColor::new(a[0], a[1], a[2])
    }
}

impl FromSpecImpl<[i64; 3]> for QuantColor {
    open spec fn obeys_from_spec() -> bool {
        true
    }

    open spec fn from_spec(a: [i64; 3]) -> QuantColor {
        rgb(a[0] as int, a[1] as int, a[2] as int)
    }
}

} // verus!
